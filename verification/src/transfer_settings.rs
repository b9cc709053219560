//! The form shown before a download or upload: destination, patterns to
//! keep and extra patterns to skip, preset excludes with check boxes, compression.

use vstd::prelude::*;

use crate::listing::RemoteEntry;
use crate::rename_edit::{EditView, RenameEdit, new_view};
use crate::text;

verus! {

#[derive(Clone, Copy, Debug, PartialEq, Eq, Structural)]
pub enum TransferField {
    Dest,
    Include,
    ExcludeExtra,
}

/// What the form will start once confirmed.
#[derive(Debug)]
pub enum PendingTransfer {
    Download { entry: RemoteEntry },
    Upload { pane_id: u128, locals: Vec<String> },
}

/// The choices a confirmed form hands to the transfer: the checked preset
/// names, the raw extra-exclude and keep pattern lists, compression.
#[derive(Debug)]
pub struct TransferChoices {
    pub exclude_presets: Vec<String>,
    pub exclude_extra: String,
    pub includes: String,
    pub compress: bool,
}

pub struct TransferSettingsForm {
    pub pending: PendingTransfer,
    pub dest: RenameEdit,
    pub includes: RenameEdit,
    pub exclude_extra: RenameEdit,
    /// Preset exclude names with their check box (checked = excluded).
    pub exclude_presets: Vec<(String, bool)>,
    pub compress: bool,
    pub focus: TransferField,
}

/// Every preset, checked.
pub open spec fn all_checked(presets: Seq<String>) -> Seq<(String, bool)> {
    presets.map_values(|p: String| (p, true))
}

/// The next field (Tab), or the previous one (Shift+Tab).
pub open spec fn next_field(f: TransferField, reverse: bool) -> TransferField {
    if reverse {
        match f {
            TransferField::Dest => TransferField::ExcludeExtra,
            TransferField::Include => TransferField::Dest,
            TransferField::ExcludeExtra => TransferField::Include,
        }
    } else {
        match f {
            TransferField::Dest => TransferField::Include,
            TransferField::Include => TransferField::ExcludeExtra,
            TransferField::ExcludeExtra => TransferField::Dest,
        }
    }
}

/// Names of the checked presets, in order.
pub open spec fn checked_names(presets: Seq<(String, bool)>) -> Seq<String>
    decreases presets.len(),
{
    if presets.len() == 0 {
        Seq::empty()
    } else {
        let rest = checked_names(presets.drop_last());
        if presets.last().1 {
            rest.push(presets.last().0)
        } else {
            rest
        }
    }
}

/// The exclude presets, all checked (the defaults of a new form).
pub fn default_preset_checks(presets: &[String]) -> (checks: Vec<(String, bool)>)
    ensures
        checks@ == all_checked(presets@),
{
    let mut out: Vec<(String, bool)> = Vec::new();
    let mut i: usize = 0;
    while i < presets.len()
        invariant
            0 <= i <= presets@.len(),
            out@ == all_checked(presets@.subrange(0, i as int)),
        decreases presets@.len() - i,
    {
        out.push((presets[i].clone(), true));
        i += 1;
        assert(out@ =~= all_checked(presets@.subrange(0, i as int)));
    }
    assert(presets@.subrange(0, presets@.len() as int) =~= presets@);
    out
}

/// The local folder downloads go to by default: the user's download
/// folder, else the home folder, else `"."`.
pub fn default_download_dir(download: Option<String>, home: Option<String>) -> (dir: String)
    ensures
        dir@ == match download {
            Some(d) => d@,
            None => match home {
                Some(h) => h@,
                None => "."@,
            },
        },
{
    match download {
        Some(d) => d,
        None => match home {
            Some(h) => h,
            None => text::owned("."),
        },
    }
}

impl TransferSettingsForm {
    pub open spec fn focused(&self) -> EditView {
        match self.focus {
            TransferField::Dest => self.dest@,
            TransferField::Include => self.includes@,
            TransferField::ExcludeExtra => self.exclude_extra@,
        }
    }

    /// The form before a download of `entry`: destination selected,
    /// patterns empty, presets checked.
    pub fn for_download(entry: RemoteEntry, default_dest: &str, last_compress: bool, presets: &[String]) -> (form: Self)
        ensures
            form.pending == (PendingTransfer::Download { entry }),
            form.dest@ == new_view(default_dest@).select_all(),
            form.includes@ == new_view(Seq::empty()),
            form.exclude_extra@ == new_view(Seq::empty()),
            form.exclude_presets@ == all_checked(presets@),
            form.compress == last_compress,
            form.focus == TransferField::Dest,
    {
        let mut dest = RenameEdit::new(default_dest);
        dest.select_all();
        let includes = RenameEdit::new("");
        let exclude_extra = RenameEdit::new("");
        proof {
            reveal_strlit("");
            assert(includes@.text =~= Seq::<char>::empty());
            assert(exclude_extra@.text =~= Seq::<char>::empty());
        }
        TransferSettingsForm {
            pending: PendingTransfer::Download { entry },
            dest,
            includes,
            exclude_extra,
            exclude_presets: default_preset_checks(presets),
            compress: last_compress,
            focus: TransferField::Dest,
        }
    }

    /// The form before uploading `locals` into the pane's remote folder.
    pub fn for_upload(pane_id: u128, locals: Vec<String>, default_dest: &str, last_compress: bool, presets: &[String]) -> (form: Self)
        ensures
            form.pending == (PendingTransfer::Upload { pane_id, locals }),
            form.dest@ == new_view(default_dest@).select_all(),
            form.includes@ == new_view(Seq::empty()),
            form.exclude_extra@ == new_view(Seq::empty()),
            form.exclude_presets@ == all_checked(presets@),
            form.compress == last_compress,
            form.focus == TransferField::Dest,
    {
        let mut dest = RenameEdit::new(default_dest);
        dest.select_all();
        let includes = RenameEdit::new("");
        let exclude_extra = RenameEdit::new("");
        proof {
            reveal_strlit("");
            assert(includes@.text =~= Seq::<char>::empty());
            assert(exclude_extra@.text =~= Seq::<char>::empty());
        }
        TransferSettingsForm {
            pending: PendingTransfer::Upload { pane_id, locals },
            dest,
            includes,
            exclude_extra,
            exclude_presets: default_preset_checks(presets),
            compress: last_compress,
            focus: TransferField::Dest,
        }
    }

    /// The editor of the focused field.
    pub fn focused_edit_mut(&mut self) -> (edit: &mut RenameEdit)
        ensures
            (*edit)@ == old(self).focused(),
            final(self).focus == old(self).focus,
            final(self).focused() == (*final(edit))@,
            final(self).pending == old(self).pending,
            final(self).exclude_presets == old(self).exclude_presets,
            final(self).compress == old(self).compress,
            old(self).focus != TransferField::Dest ==> final(self).dest == old(self).dest,
            old(self).focus != TransferField::Include ==> final(self).includes == old(self).includes,
            old(self).focus != TransferField::ExcludeExtra ==> final(self).exclude_extra == old(
                self,
            ).exclude_extra,
    {
        match self.focus {
            TransferField::Dest => &mut self.dest,
            TransferField::Include => &mut self.includes,
            TransferField::ExcludeExtra => &mut self.exclude_extra,
        }
    }

    /// Tab / Shift+Tab: moves the focus and selects the field's text.
    pub fn cycle_focus(&mut self, reverse: bool)
        ensures
            final(self).focus == next_field(old(self).focus, reverse),
            final(self).focused() == ({
                let f = final(self).focus;
                match f {
                    TransferField::Dest => old(self).dest@,
                    TransferField::Include => old(self).includes@,
                    TransferField::ExcludeExtra => old(self).exclude_extra@,
                }
            }).select_all(),
            final(self).focus != TransferField::Dest ==> final(self).dest == old(self).dest,
            final(self).focus != TransferField::Include ==> final(self).includes == old(self).includes,
            final(self).focus != TransferField::ExcludeExtra ==> final(self).exclude_extra == old(
                self,
            ).exclude_extra,
            final(self).pending == old(self).pending,
            final(self).exclude_presets == old(self).exclude_presets,
            final(self).compress == old(self).compress,
    {
        self.focus = if reverse {
            match self.focus {
                TransferField::Dest => TransferField::ExcludeExtra,
                TransferField::Include => TransferField::Dest,
                TransferField::ExcludeExtra => TransferField::Include,
            }
        } else {
            match self.focus {
                TransferField::Dest => TransferField::Include,
                TransferField::Include => TransferField::ExcludeExtra,
                TransferField::ExcludeExtra => TransferField::Dest,
            }
        };
        match self.focus {
            TransferField::Dest => self.dest.select_all(),
            TransferField::Include => self.includes.select_all(),
            TransferField::ExcludeExtra => self.exclude_extra.select_all(),
        }
    }

    pub fn title(&self) -> (t: &'static str)
        ensures
            t@ == match self.pending {
                PendingTransfer::Download { .. } => "Download settings"@,
                PendingTransfer::Upload { .. } => "Upload settings"@,
            },
    {
        match self.pending {
            PendingTransfer::Download { .. } => "Download settings",
            PendingTransfer::Upload { .. } => "Upload settings",
        }
    }

    pub fn dest_label(&self) -> (t: &'static str)
        ensures
            t@ == match self.pending {
                PendingTransfer::Download { .. } => "Local folder"@,
                PendingTransfer::Upload { .. } => "Remote directory"@,
            },
    {
        match self.pending {
            PendingTransfer::Download { .. } => "Local folder",
            PendingTransfer::Upload { .. } => "Remote directory",
        }
    }

    pub fn is_download(&self) -> (d: bool)
        ensures
            d == self.pending is Download,
    {
        match self.pending {
            PendingTransfer::Download { .. } => true,
            PendingTransfer::Upload { .. } => false,
        }
    }

    /// What the confirmed form asks of the transfer.
    pub fn build_options(&self) -> (c: TransferChoices)
        ensures
            c.exclude_presets@ == checked_names(self.exclude_presets@),
            c.exclude_extra@ == self.exclude_extra@.text,
            c.includes@ == self.includes@.text,
            c.compress == self.compress,
    {
        let mut names: Vec<String> = Vec::new();
        let mut i: usize = 0;
        while i < self.exclude_presets.len()
            invariant
                0 <= i <= self.exclude_presets@.len(),
                names@ == checked_names(self.exclude_presets@.subrange(0, i as int)),
            decreases self.exclude_presets@.len() - i,
        {
            assert(self.exclude_presets@.subrange(0, i + 1).drop_last() =~= self.exclude_presets@.subrange(
                0,
                i as int,
            ));
            if self.exclude_presets[i].1 {
                names.push(self.exclude_presets[i].0.clone());
            }
            i += 1;
        }
        assert(self.exclude_presets@.subrange(0, self.exclude_presets@.len() as int)
            =~= self.exclude_presets@);
        TransferChoices {
            exclude_presets: names,
            exclude_extra: self.exclude_extra.text.clone(),
            includes: self.includes.text.clone(),
            compress: self.compress,
        }
    }
}

/// Three presses of Tab (or of Shift+Tab) come back to the same field, and
/// Shift+Tab undoes Tab.
pub proof fn law_focus_cycle(f: TransferField, reverse: bool)
    ensures
        next_field(next_field(next_field(f, reverse), reverse), reverse) == f,
        next_field(next_field(f, false), true) == f,
        next_field(next_field(f, true), false) == f,
{
}

} // verus!
