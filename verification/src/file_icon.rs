//! File-type icons of the Files browser: a glyph name and a `#rrggbb`
//! tint for each entry, chosen by file-name rules first and by extension
//! (compound extensions such as `spec.ts` included) after them.

use vstd::prelude::*;

use crate::listing;
use crate::text;

verus! {

/// A glyph (an SVG under `icons/files/`) and its tint as `#rrggbb`.
#[derive(Clone, Copy, Debug, PartialEq, Eq)]
pub struct FileIcon {
    pub glyph: &'static str,
    pub color: &'static str,
}

impl View for FileIcon {
    type V = (Seq<char>, Seq<char>);

    open spec fn view(&self) -> (Seq<char>, Seq<char>) {
        (self.glyph@, self.color@)
    }
}

/// Glyph and tint of folders.
pub open spec fn folder_icon() -> (Seq<char>, Seq<char>) {
    ("folder"@, "#dcb67a"@)
}

/// The compound extension that `base` ends with after a `.`, tried in this
/// order (as VS Code matches `x.test.ts`, but not `latest.ts`).
pub open spec fn compound_ext(base: Seq<char>) -> Option<Seq<char>> {
    if text::spec_ends_with(base, ".stylelintrc.json"@) {
        Some("stylelintrc.json"@)
    } else if text::spec_ends_with(base, ".stylelintrc.yaml"@) {
        Some("stylelintrc.yaml"@)
    } else if text::spec_ends_with(base, ".stylelintrc.yml"@) {
        Some("stylelintrc.yml"@)
    } else if text::spec_ends_with(base, ".stylelintrc.js"@) {
        Some("stylelintrc.js"@)
    } else if text::spec_ends_with(base, ".codeclimate.yml"@) {
        Some("codeclimate.yml"@)
    } else if text::spec_ends_with(base, ".eslintrc.yaml"@) {
        Some("eslintrc.yaml"@)
    } else if text::spec_ends_with(base, ".eslintrc.yml"@) {
        Some("eslintrc.yml"@)
    } else if text::spec_ends_with(base, ".eslintrc.json"@) {
        Some("eslintrc.json"@)
    } else if text::spec_ends_with(base, ".eslintrc.cjs"@) {
        Some("eslintrc.cjs"@)
    } else if text::spec_ends_with(base, ".eslintrc.js"@) {
        Some("eslintrc.js"@)
    } else if text::spec_ends_with(base, ".gitlab-ci.yml"@) {
        Some("gitlab-ci.yml"@)
    } else if text::spec_ends_with(base, ".babelrc.cjs"@) {
        Some("babelrc.cjs"@)
    } else if text::spec_ends_with(base, ".babelrc.js"@) {
        Some("babelrc.js"@)
    } else if text::spec_ends_with(base, ".smarty.tpl"@) {
        Some("smarty.tpl"@)
    } else if text::spec_ends_with(base, ".erb.html"@) {
        Some("erb.html"@)
    } else if text::spec_ends_with(base, ".html.erb"@) {
        Some("html.erb"@)
    } else if text::spec_ends_with(base, ".npm-debug.log"@) {
        Some("npm-debug.log"@)
    } else if text::spec_ends_with(base, ".php.inc"@) {
        Some("php.inc"@)
    } else if text::spec_ends_with(base, ".spec.cjs"@) {
        Some("spec.cjs"@)
    } else if text::spec_ends_with(base, ".test.cjs"@) {
        Some("test.cjs"@)
    } else if text::spec_ends_with(base, ".spec.mjs"@) {
        Some("spec.mjs"@)
    } else if text::spec_ends_with(base, ".test.mjs"@) {
        Some("test.mjs"@)
    } else if text::spec_ends_with(base, ".spec.jsx"@) {
        Some("spec.jsx"@)
    } else if text::spec_ends_with(base, ".test.jsx"@) {
        Some("test.jsx"@)
    } else if text::spec_ends_with(base, ".spec.tsx"@) {
        Some("spec.tsx"@)
    } else if text::spec_ends_with(base, ".test.tsx"@) {
        Some("test.tsx"@)
    } else if text::spec_ends_with(base, ".spec.mts"@) {
        Some("spec.mts"@)
    } else if text::spec_ends_with(base, ".test.mts"@) {
        Some("test.mts"@)
    } else if text::spec_ends_with(base, ".spec.cts"@) {
        Some("spec.cts"@)
    } else if text::spec_ends_with(base, ".test.cts"@) {
        Some("test.cts"@)
    } else if text::spec_ends_with(base, ".css.map"@) {
        Some("css.map"@)
    } else if text::spec_ends_with(base, ".cjs.map"@) {
        Some("cjs.map"@)
    } else if text::spec_ends_with(base, ".mjs.map"@) {
        Some("mjs.map"@)
    } else if text::spec_ends_with(base, ".js.map"@) {
        Some("js.map"@)
    } else if text::spec_ends_with(base, ".tf.json"@) {
        Some("tf.json"@)
    } else if text::spec_ends_with(base, ".tfvars.json"@) {
        Some("tfvars.json"@)
    } else if text::spec_ends_with(base, ".spec.js"@) {
        Some("spec.js"@)
    } else if text::spec_ends_with(base, ".test.js"@) {
        Some("test.js"@)
    } else if text::spec_ends_with(base, ".spec.ts"@) {
        Some("spec.ts"@)
    } else if text::spec_ends_with(base, ".test.ts"@) {
        Some("test.ts"@)
    } else if text::spec_ends_with(base, ".d.ts"@) {
        Some("d.ts"@)
    } else if text::spec_ends_with(base, ".d.mts"@) {
        Some("d.mts"@)
    } else if text::spec_ends_with(base, ".d.cts"@) {
        Some("d.cts"@)
    } else {
        None
    }
}

/// Icon of a (lowercase) base name by the file-name rules, tried in order.
pub open spec fn name_icon(base: Seq<char>) -> Option<(Seq<char>, Seq<char>)> {
    if base == "dockerfile"@ ||
        base == "containerfile"@ ||
        text::spec_starts_with(base, "dockerfile."@) {
        Some(("docker"@, "#519aba"@))
    } else if base == "docker-compose.yml"@ ||
        base == "docker-compose.yaml"@ ||
        base == "compose.yml"@ ||
        base == "compose.yaml"@ ||
        text::spec_starts_with(base, "docker-compose."@) ||
        text::spec_starts_with(base, "compose."@) {
        Some(("docker"@, "#f55385"@))
    } else if base == "makefile"@ ||
        base == "gnumakefile"@ ||
        base == "cmakelists.txt"@ {
        Some(("makefile"@, "#e37933"@))
    } else if base == ".gitignore"@ ||
        base == ".gitattributes"@ ||
        base == ".gitmodules"@ ||
        base == ".gitkeep"@ ||
        base == ".git-blame-ignore-revs"@ {
        Some(("git"@, "#41535b"@))
    } else if base == "package.json"@ ||
        base == "package-lock.json"@ {
        Some(("json"@, "#cbcb41"@))
    } else if base == ".npmrc"@ {
        Some(("npm"@, "#cbcb41"@))
    } else if base == "yarn.lock"@ ||
        base == ".yarnrc"@ ||
        base == ".yarnrc.yml"@ {
        Some(("yarn"@, "#519aba"@))
    } else if base == "tsconfig.json"@ ||
        base == "tsconfig.app.json"@ ||
        base == "tsconfig.node.json"@ ||
        base == "jsconfig.json"@ {
        Some(("tsconfig"@, "#519aba"@))
    } else if base == "readme"@ ||
        text::spec_starts_with(base, "readme."@) {
        Some(("info"@, "#519aba"@))
    } else if base == "license"@ ||
        base == "licence"@ ||
        base == "copying"@ ||
        base == "license.md"@ ||
        base == "licence.md"@ ||
        base == "license.txt"@ {
        Some(("license"@, "#cbcb41"@))
    } else if text::spec_starts_with(base, "vite.config."@) {
        Some(("vite"@, "#cbcb41"@))
    } else if text::spec_starts_with(base, "eslint.config."@) ||
        text::spec_starts_with(base, ".eslintrc"@) {
        Some(("eslint"@, "#a074c4"@))
    } else if text::spec_starts_with(base, "babel.config."@) {
        Some(("babel"@, "#cbcb41"@))
    } else if base == "pom.xml"@ {
        Some(("maven"@, "#cc3e44"@))
    } else if base == "cargo.toml"@ ||
        base == "cargo.lock"@ ||
        base == "rust-toolchain"@ ||
        base == "rust-toolchain.toml"@ {
        Some(("config"@, "#6d8086"@))
    } else if base == "go.mod"@ ||
        base == "go.sum"@ {
        Some(("go2"@, "#519aba"@))
    } else if base == ".editorconfig"@ {
        Some(("editorconfig"@, "#6d8086"@))
    } else if text::spec_starts_with(base, ".env"@) {
        Some(("config"@, "#6d8086"@))
    } else {
        None
    }
}

/// Icon of an extension (lowercase, compound extensions included).
pub open spec fn ext_icon(ext: Seq<char>) -> (Seq<char>, Seq<char>) {
    if ext == "babelrc.cjs"@ ||
        ext == "babelrc.js"@ ||
        ext == "babelrc"@ {
        ("babel"@, "#cbcb41"@)
    } else if ext == "cjs.map"@ ||
        ext == "js.map"@ ||
        ext == "mjs.map"@ ||
        ext == "cjs"@ ||
        ext == "es"@ ||
        ext == "es5"@ ||
        ext == "es7"@ ||
        ext == "js"@ ||
        ext == "mjs"@ {
        ("javascript"@, "#cbcb41"@)
    } else if ext == "codeclimate.yml"@ {
        ("code-climate"@, "#8dc149"@)
    } else if ext == "css.map"@ ||
        ext == "css"@ ||
        ext == "sss"@ {
        ("css"@, "#519aba"@)
    } else if ext == "erb.html"@ ||
        ext == "html.erb"@ ||
        ext == "erb"@ {
        ("html"@, "#cc3e44"@)
    } else if ext == "eslintrc.cjs"@ ||
        ext == "eslintrc.js"@ ||
        ext == "eslintrc.json"@ ||
        ext == "eslintrc.yaml"@ ||
        ext == "eslintrc.yml"@ ||
        ext == "eslintrc"@ {
        ("eslint"@, "#a074c4"@)
    } else if ext == "gitlab-ci.yml"@ {
        ("gitlab"@, "#e37933"@)
    } else if ext == "npm-debug.log"@ {
        ("npm"@, "#41535b"@)
    } else if ext == "php.inc"@ ||
        ext == "php"@ {
        ("php"@, "#a074c4"@)
    } else if ext == "smarty.tpl"@ ||
        ext == "tpl"@ {
        ("smarty"@, "#cbcb41"@)
    } else if ext == "spec.cjs"@ ||
        ext == "spec.js"@ ||
        ext == "spec.mjs"@ ||
        ext == "test.cjs"@ ||
        ext == "test.js"@ ||
        ext == "test.mjs"@ {
        ("javascript"@, "#e37933"@)
    } else if ext == "spec.cts"@ ||
        ext == "spec.mts"@ ||
        ext == "spec.ts"@ ||
        ext == "test.cts"@ ||
        ext == "test.mts"@ ||
        ext == "test.ts"@ {
        ("typescript"@, "#e37933"@)
    } else if ext == "spec.jsx"@ ||
        ext == "spec.tsx"@ ||
        ext == "test.jsx"@ ||
        ext == "test.tsx"@ {
        ("react"@, "#e37933"@)
    } else if ext == "stylelintrc.js"@ ||
        ext == "stylelintrc.json"@ ||
        ext == "stylelintrc.yaml"@ ||
        ext == "stylelintrc.yml"@ ||
        ext == "stylelintrc"@ {
        ("stylelint"@, "#d4d7d6"@)
    } else if ext == "tf.json"@ ||
        ext == "tfvars.json"@ ||
        ext == "tf"@ ||
        ext == "tfvars"@ {
        ("terraform"@, "#a074c4"@)
    } else if ext == "3dm"@ ||
        ext == "3ds"@ ||
        ext == "dae"@ ||
        ext == "obj"@ ||
        ext == "stl"@ {
        ("svg"@, "#519aba"@)
    } else if ext == "ad"@ ||
        ext == "argdown"@ {
        ("argdown"@, "#519aba"@)
    } else if ext == "ai"@ {
        ("illustrator"@, "#cbcb41"@)
    } else if ext == "apex"@ ||
        ext == "cls"@ {
        ("salesforce"@, "#519aba"@)
    } else if ext == "article"@ ||
        ext == "slide"@ {
        ("go"@, "#519aba"@)
    } else if ext == "asax"@ ||
        ext == "master"@ {
        ("html"@, "#cbcb41"@)
    } else if ext == "ascx"@ {
        ("html"@, "#8dc149"@)
    } else if ext == "aspx"@ {
        ("html"@, "#519aba"@)
    } else if ext == "avi"@ ||
        ext == "mov"@ ||
        ext == "mp4"@ ||
        ext == "mpg"@ ||
        ext == "ogv"@ ||
        ext == "webm"@ {
        ("video"@, "#f55385"@)
    } else if ext == "avif"@ ||
        ext == "gif"@ ||
        ext == "jpeg"@ ||
        ext == "jpg"@ ||
        ext == "png"@ ||
        ext == "pxm"@ ||
        ext == "svgx"@ ||
        ext == "tiff"@ ||
        ext == "webp"@ {
        ("image"@, "#a074c4"@)
    } else if ext == "bash"@ ||
        ext == "command"@ ||
        ext == "fish"@ ||
        ext == "ksh"@ ||
        ext == "sh"@ ||
        ext == "zsh"@ {
        ("shell"@, "#8dc149"@)
    } else if ext == "bat"@ ||
        ext == "cmd"@ {
        ("windows"@, "#519aba"@)
    } else if ext == "bicep"@ {
        ("bicep"@, "#519aba"@)
    } else if ext == "bowerrc"@ {
        ("bower"@, "#e37933"@)
    } else if ext == "bsl"@ {
        ("bsl"@, "#cc3e44"@)
    } else if ext == "c"@ {
        ("c"@, "#519aba"@)
    } else if ext == "cake"@ {
        ("cake"@, "#cc3e44"@)
    } else if ext == "cc"@ ||
        ext == "cpp"@ ||
        ext == "cxx"@ {
        ("cpp"@, "#519aba"@)
    } else if ext == "cer"@ ||
        ext == "cert"@ ||
        ext == "crt"@ ||
        ext == "key"@ ||
        ext == "pem"@ {
        ("lock"@, "#8dc149"@)
    } else if ext == "cfc"@ ||
        ext == "cfm"@ {
        ("coldfusion"@, "#519aba"@)
    } else if ext == "cjsx"@ {
        ("react"@, "#519aba"@)
    } else if ext == "class"@ {
        ("java"@, "#519aba"@)
    } else if ext == "classpath"@ ||
        ext == "java"@ {
        ("java"@, "#cc3e44"@)
    } else if ext == "clj"@ ||
        ext == "cljc"@ {
        ("clojure"@, "#8dc149"@)
    } else if ext == "cmx"@ ||
        ext == "cmxa"@ ||
        ext == "ml"@ ||
        ext == "mli"@ {
        ("ocaml"@, "#e37933"@)
    } else if ext == "component"@ ||
        ext == "htm"@ ||
        ext == "html"@ ||
        ext == "xhtml"@ {
        ("html"@, "#e37933"@)
    } else if ext == "config"@ ||
        ext == "direnv"@ ||
        ext == "htaccess"@ ||
        ext == "ini"@ ||
        ext == "slugignore"@ ||
        ext == "static"@ ||
        ext == "toml"@ {
        ("config"@, "#6d8086"@)
    } else if ext == "cr"@ {
        ("crystal"@, "#d4d7d6"@)
    } else if ext == "cs"@ {
        ("c-sharp"@, "#519aba"@)
    } else if ext == "cson"@ ||
        ext == "json"@ ||
        ext == "json5"@ ||
        ext == "jsonc"@ {
        ("json"@, "#cbcb41"@)
    } else if ext == "csv"@ {
        ("csv"@, "#8dc149"@)
    } else if ext == "ctp"@ {
        ("cake_php"@, "#cc3e44"@)
    } else if ext == "cts"@ ||
        ext == "mts"@ ||
        ext == "ts"@ {
        ("typescript"@, "#519aba"@)
    } else if ext == "d"@ {
        ("d"@, "#cc3e44"@)
    } else if ext == "dart"@ {
        ("dart"@, "#519aba"@)
    } else if ext == "doc"@ ||
        ext == "docx"@ {
        ("word"@, "#519aba"@)
    } else if ext == "dockerignore"@ {
        ("docker"@, "#4d5a5e"@)
    } else if ext == "ecr"@ ||
        ext == "slang"@ {
        ("crystal_embedded"@, "#d4d7d6"@)
    } else if ext == "edn"@ {
        ("clojure"@, "#519aba"@)
    } else if ext == "ejs"@ {
        ("ejs"@, "#cbcb41"@)
    } else if ext == "elm"@ {
        ("elm"@, "#519aba"@)
    } else if ext == "eot"@ ||
        ext == "otf"@ ||
        ext == "ttf"@ ||
        ext == "woff"@ ||
        ext == "woff2"@ {
        ("font"@, "#cc3e44"@)
    } else if ext == "epp"@ ||
        ext == "pp"@ {
        ("puppet"@, "#cbcb41"@)
    } else if ext == "erl"@ ||
        ext == "hrl"@ {
        ("default"@, "#cc3e44"@)
    } else if ext == "eslintignore"@ {
        ("eslint"@, "#4d5a5e"@)
    } else if ext == "ex"@ {
        ("elixir"@, "#a074c4"@)
    } else if ext == "exs"@ {
        ("elixir_script"@, "#a074c4"@)
    } else if ext == "firebaserc"@ {
        ("firebase"@, "#e37933"@)
    } else if ext == "flac"@ ||
        ext == "mp3"@ ||
        ext == "ogg"@ ||
        ext == "wav"@ {
        ("audio"@, "#a074c4"@)
    } else if ext == "fs"@ ||
        ext == "fsi"@ ||
        ext == "fsx"@ {
        ("f-sharp"@, "#519aba"@)
    } else if ext == "gd"@ {
        ("godot"@, "#519aba"@)
    } else if ext == "gitattributes"@ ||
        ext == "gitconfig"@ ||
        ext == "gitkeep"@ ||
        ext == "gitmodules"@ {
        ("git"@, "#41535b"@)
    } else if ext == "go"@ {
        ("go2"@, "#519aba"@)
    } else if ext == "godot"@ {
        ("godot"@, "#cc3e44"@)
    } else if ext == "gql"@ ||
        ext == "graphql"@ ||
        ext == "graphqls"@ {
        ("graphql"@, "#f55385"@)
    } else if ext == "gradle"@ {
        ("gradle"@, "#519aba"@)
    } else if ext == "gsp"@ {
        ("grails"@, "#8dc149"@)
    } else if ext == "h"@ {
        ("c"@, "#a074c4"@)
    } else if ext == "h++"@ ||
        ext == "hh"@ ||
        ext == "hpp"@ ||
        ext == "hxx"@ {
        ("cpp"@, "#a074c4"@)
    } else if ext == "hack"@ {
        ("hacklang"@, "#e37933"@)
    } else if ext == "haml"@ {
        ("haml"@, "#cc3e44"@)
    } else if ext == "happenings"@ {
        ("happenings"@, "#519aba"@)
    } else if ext == "hs"@ ||
        ext == "lhs"@ {
        ("haskell"@, "#a074c4"@)
    } else if ext == "hx"@ {
        ("haxe"@, "#e37933"@)
    } else if ext == "hxml"@ {
        ("haxe"@, "#a074c4"@)
    } else if ext == "hxp"@ {
        ("haxe"@, "#519aba"@)
    } else if ext == "hxs"@ {
        ("haxe"@, "#cbcb41"@)
    } else if ext == "ico"@ {
        ("favicon"@, "#cbcb41"@)
    } else if ext == "ipynb"@ {
        ("notebook"@, "#519aba"@)
    } else if ext == "jade"@ {
        ("jade"@, "#cc3e44"@)
    } else if ext == "jar"@ {
        ("zip"@, "#cc3e44"@)
    } else if ext == "jinja"@ ||
        ext == "jinja2"@ {
        ("jinja"@, "#cc3e44"@)
    } else if ext == "jscsrc"@ ||
        ext == "jshintrc"@ {
        ("javascript"@, "#519aba"@)
    } else if ext == "kt"@ ||
        ext == "kts"@ {
        ("kotlin"@, "#e37933"@)
    } else if ext == "less"@ {
        ("less"@, "#519aba"@)
    } else if ext == "liquid"@ {
        ("liquid"@, "#8dc149"@)
    } else if ext == "ls"@ {
        ("livescript"@, "#519aba"@)
    } else if ext == "lua"@ {
        ("lua"@, "#519aba"@)
    } else if ext == "md"@ ||
        ext == "mdx"@ {
        ("markdown"@, "#519aba"@)
    } else if ext == "mdo"@ {
        ("mdo"@, "#cc3e44"@)
    } else if ext == "mustache"@ ||
        ext == "stache"@ {
        ("mustache"@, "#e37933"@)
    } else if ext == "nim"@ ||
        ext == "nims"@ {
        ("nim"@, "#cbcb41"@)
    } else if ext == "nj"@ ||
        ext == "njk"@ ||
        ext == "njs"@ ||
        ext == "nunj"@ ||
        ext == "nunjs"@ ||
        ext == "nunjucks"@ {
        ("nunjucks"@, "#8dc149"@)
    } else if ext == "npmignore"@ ||
        ext == "npmrc"@ {
        ("npm"@, "#cc3e44"@)
    } else if ext == "odata"@ {
        ("odata"@, "#e37933"@)
    } else if ext == "pddl"@ {
        ("pddl"@, "#a074c4"@)
    } else if ext == "pdf"@ {
        ("pdf"@, "#cc3e44"@)
    } else if ext == "pipeline"@ {
        ("pipeline"@, "#e37933"@)
    } else if ext == "plan"@ {
        ("plan"@, "#8dc149"@)
    } else if ext == "prisma"@ {
        ("prisma"@, "#519aba"@)
    } else if ext == "pro"@ {
        ("prolog"@, "#e37933"@)
    } else if ext == "ps1"@ ||
        ext == "psd1"@ ||
        ext == "psm1"@ {
        ("powershell"@, "#519aba"@)
    } else if ext == "psd"@ {
        ("photoshop"@, "#519aba"@)
    } else if ext == "purs"@ {
        ("purescript"@, "#d4d7d6"@)
    } else if ext == "py"@ ||
        ext == "pyi"@ ||
        ext == "pyw"@ {
        ("python"@, "#519aba"@)
    } else if ext == "r"@ ||
        ext == "rmd"@ {
        ("R"@, "#519aba"@)
    } else if ext == "rb"@ {
        ("ruby"@, "#cc3e44"@)
    } else if ext == "re"@ {
        ("reasonml"@, "#cc3e44"@)
    } else if ext == "res"@ {
        ("rescript"@, "#cc3e44"@)
    } else if ext == "resi"@ {
        ("rescript"@, "#f55385"@)
    } else if ext == "rs"@ {
        ("rust"@, "#6d8086"@)
    } else if ext == "sass"@ ||
        ext == "scss"@ {
        ("sass"@, "#f55385"@)
    } else if ext == "sbt"@ {
        ("sbt"@, "#519aba"@)
    } else if ext == "scala"@ {
        ("scala"@, "#cc3e44"@)
    } else if ext == "slim"@ {
        ("slim"@, "#e37933"@)
    } else if ext == "sol"@ {
        ("ethereum"@, "#519aba"@)
    } else if ext == "soql"@ {
        ("db"@, "#519aba"@)
    } else if ext == "springbeans"@ {
        ("spring"@, "#8dc149"@)
    } else if ext == "sql"@ {
        ("db"@, "#f55385"@)
    } else if ext == "styl"@ {
        ("stylus"@, "#8dc149"@)
    } else if ext == "stylelintignore"@ {
        ("stylelint"@, "#4d5a5e"@)
    } else if ext == "sublime-project"@ ||
        ext == "sublime-workspace"@ {
        ("sublime"@, "#e37933"@)
    } else if ext == "svelte"@ {
        ("svelte"@, "#cc3e44"@)
    } else if ext == "svg"@ {
        ("svg"@, "#a074c4"@)
    } else if ext == "swift"@ {
        ("swift"@, "#e37933"@)
    } else if ext == "tex"@ {
        ("tex"@, "#cbcb41"@)
    } else if ext == "tmp"@ {
        ("clock"@, "#6d8086"@)
    } else if ext == "tres"@ {
        ("godot"@, "#cbcb41"@)
    } else if ext == "tscn"@ {
        ("godot"@, "#a074c4"@)
    } else if ext == "twig"@ {
        ("twig"@, "#8dc149"@)
    } else if ext == "vala"@ ||
        ext == "vapi"@ {
        ("vala"@, "#6d8086"@)
    } else if ext == "vue"@ {
        ("vue"@, "#8dc149"@)
    } else if ext == "wasm"@ {
        ("wasm"@, "#a074c4"@)
    } else if ext == "wat"@ {
        ("wat"@, "#a074c4"@)
    } else if ext == "wgt"@ {
        ("wgt"@, "#519aba"@)
    } else if ext == "xls"@ ||
        ext == "xlsx"@ {
        ("xls"@, "#8dc149"@)
    } else if ext == "xml"@ {
        ("xml"@, "#e37933"@)
    } else if ext == "yaml"@ ||
        ext == "yml"@ {
        ("yml"@, "#a074c4"@)
    } else if ext == "zig"@ {
        ("zig"@, "#e37933"@)
    } else if ext == "zip"@ {
        ("zip"@, "#6d8086"@)
    } else {
        ("default"@, "#d4d7d6"@)
    }
}
/// Compound extension of a lowercase base name (`compound_ext`).
fn compound_ext_of(base: &[char]) -> (c: Option<Vec<char>>)
    ensures
        match c {
            Some(v) => compound_ext(base@) == Some(v@),
            None => compound_ext(base@) is None,
        },
{
    if text::ends_with_str(base, ".stylelintrc.json") {
        return Some(text::chars_of("stylelintrc.json"));
    }
    if text::ends_with_str(base, ".stylelintrc.yaml") {
        return Some(text::chars_of("stylelintrc.yaml"));
    }
    if text::ends_with_str(base, ".stylelintrc.yml") {
        return Some(text::chars_of("stylelintrc.yml"));
    }
    if text::ends_with_str(base, ".stylelintrc.js") {
        return Some(text::chars_of("stylelintrc.js"));
    }
    if text::ends_with_str(base, ".codeclimate.yml") {
        return Some(text::chars_of("codeclimate.yml"));
    }
    if text::ends_with_str(base, ".eslintrc.yaml") {
        return Some(text::chars_of("eslintrc.yaml"));
    }
    if text::ends_with_str(base, ".eslintrc.yml") {
        return Some(text::chars_of("eslintrc.yml"));
    }
    if text::ends_with_str(base, ".eslintrc.json") {
        return Some(text::chars_of("eslintrc.json"));
    }
    if text::ends_with_str(base, ".eslintrc.cjs") {
        return Some(text::chars_of("eslintrc.cjs"));
    }
    if text::ends_with_str(base, ".eslintrc.js") {
        return Some(text::chars_of("eslintrc.js"));
    }
    if text::ends_with_str(base, ".gitlab-ci.yml") {
        return Some(text::chars_of("gitlab-ci.yml"));
    }
    if text::ends_with_str(base, ".babelrc.cjs") {
        return Some(text::chars_of("babelrc.cjs"));
    }
    if text::ends_with_str(base, ".babelrc.js") {
        return Some(text::chars_of("babelrc.js"));
    }
    if text::ends_with_str(base, ".smarty.tpl") {
        return Some(text::chars_of("smarty.tpl"));
    }
    if text::ends_with_str(base, ".erb.html") {
        return Some(text::chars_of("erb.html"));
    }
    if text::ends_with_str(base, ".html.erb") {
        return Some(text::chars_of("html.erb"));
    }
    if text::ends_with_str(base, ".npm-debug.log") {
        return Some(text::chars_of("npm-debug.log"));
    }
    if text::ends_with_str(base, ".php.inc") {
        return Some(text::chars_of("php.inc"));
    }
    if text::ends_with_str(base, ".spec.cjs") {
        return Some(text::chars_of("spec.cjs"));
    }
    if text::ends_with_str(base, ".test.cjs") {
        return Some(text::chars_of("test.cjs"));
    }
    if text::ends_with_str(base, ".spec.mjs") {
        return Some(text::chars_of("spec.mjs"));
    }
    if text::ends_with_str(base, ".test.mjs") {
        return Some(text::chars_of("test.mjs"));
    }
    if text::ends_with_str(base, ".spec.jsx") {
        return Some(text::chars_of("spec.jsx"));
    }
    if text::ends_with_str(base, ".test.jsx") {
        return Some(text::chars_of("test.jsx"));
    }
    if text::ends_with_str(base, ".spec.tsx") {
        return Some(text::chars_of("spec.tsx"));
    }
    if text::ends_with_str(base, ".test.tsx") {
        return Some(text::chars_of("test.tsx"));
    }
    if text::ends_with_str(base, ".spec.mts") {
        return Some(text::chars_of("spec.mts"));
    }
    if text::ends_with_str(base, ".test.mts") {
        return Some(text::chars_of("test.mts"));
    }
    if text::ends_with_str(base, ".spec.cts") {
        return Some(text::chars_of("spec.cts"));
    }
    if text::ends_with_str(base, ".test.cts") {
        return Some(text::chars_of("test.cts"));
    }
    if text::ends_with_str(base, ".css.map") {
        return Some(text::chars_of("css.map"));
    }
    if text::ends_with_str(base, ".cjs.map") {
        return Some(text::chars_of("cjs.map"));
    }
    if text::ends_with_str(base, ".mjs.map") {
        return Some(text::chars_of("mjs.map"));
    }
    if text::ends_with_str(base, ".js.map") {
        return Some(text::chars_of("js.map"));
    }
    if text::ends_with_str(base, ".tf.json") {
        return Some(text::chars_of("tf.json"));
    }
    if text::ends_with_str(base, ".tfvars.json") {
        return Some(text::chars_of("tfvars.json"));
    }
    if text::ends_with_str(base, ".spec.js") {
        return Some(text::chars_of("spec.js"));
    }
    if text::ends_with_str(base, ".test.js") {
        return Some(text::chars_of("test.js"));
    }
    if text::ends_with_str(base, ".spec.ts") {
        return Some(text::chars_of("spec.ts"));
    }
    if text::ends_with_str(base, ".test.ts") {
        return Some(text::chars_of("test.ts"));
    }
    if text::ends_with_str(base, ".d.ts") {
        return Some(text::chars_of("d.ts"));
    }
    if text::ends_with_str(base, ".d.mts") {
        return Some(text::chars_of("d.mts"));
    }
    if text::ends_with_str(base, ".d.cts") {
        return Some(text::chars_of("d.cts"));
    }
    None
}

/// Icon by the file-name rules (`name_icon`).
pub fn icon_by_name(base: &[char]) -> (icon: Option<FileIcon>)
    ensures
        match icon {
            Some(i) => name_icon(base@) == Some(i@),
            None => name_icon(base@) is None,
        },
{
    if text::eq_str(base, "dockerfile") ||
        text::eq_str(base, "containerfile") ||
        text::starts_with_str(base, "dockerfile.") {
        return Some(FileIcon { glyph: "docker", color: "#519aba" });
    }
    if text::eq_str(base, "docker-compose.yml") ||
        text::eq_str(base, "docker-compose.yaml") ||
        text::eq_str(base, "compose.yml") ||
        text::eq_str(base, "compose.yaml") ||
        text::starts_with_str(base, "docker-compose.") ||
        text::starts_with_str(base, "compose.") {
        return Some(FileIcon { glyph: "docker", color: "#f55385" });
    }
    if text::eq_str(base, "makefile") ||
        text::eq_str(base, "gnumakefile") ||
        text::eq_str(base, "cmakelists.txt") {
        return Some(FileIcon { glyph: "makefile", color: "#e37933" });
    }
    if text::eq_str(base, ".gitignore") ||
        text::eq_str(base, ".gitattributes") ||
        text::eq_str(base, ".gitmodules") ||
        text::eq_str(base, ".gitkeep") ||
        text::eq_str(base, ".git-blame-ignore-revs") {
        return Some(FileIcon { glyph: "git", color: "#41535b" });
    }
    if text::eq_str(base, "package.json") ||
        text::eq_str(base, "package-lock.json") {
        return Some(FileIcon { glyph: "json", color: "#cbcb41" });
    }
    if text::eq_str(base, ".npmrc") {
        return Some(FileIcon { glyph: "npm", color: "#cbcb41" });
    }
    if text::eq_str(base, "yarn.lock") ||
        text::eq_str(base, ".yarnrc") ||
        text::eq_str(base, ".yarnrc.yml") {
        return Some(FileIcon { glyph: "yarn", color: "#519aba" });
    }
    if text::eq_str(base, "tsconfig.json") ||
        text::eq_str(base, "tsconfig.app.json") ||
        text::eq_str(base, "tsconfig.node.json") ||
        text::eq_str(base, "jsconfig.json") {
        return Some(FileIcon { glyph: "tsconfig", color: "#519aba" });
    }
    if text::eq_str(base, "readme") ||
        text::starts_with_str(base, "readme.") {
        return Some(FileIcon { glyph: "info", color: "#519aba" });
    }
    if text::eq_str(base, "license") ||
        text::eq_str(base, "licence") ||
        text::eq_str(base, "copying") ||
        text::eq_str(base, "license.md") ||
        text::eq_str(base, "licence.md") ||
        text::eq_str(base, "license.txt") {
        return Some(FileIcon { glyph: "license", color: "#cbcb41" });
    }
    if text::starts_with_str(base, "vite.config.") {
        return Some(FileIcon { glyph: "vite", color: "#cbcb41" });
    }
    if text::starts_with_str(base, "eslint.config.") ||
        text::starts_with_str(base, ".eslintrc") {
        return Some(FileIcon { glyph: "eslint", color: "#a074c4" });
    }
    if text::starts_with_str(base, "babel.config.") {
        return Some(FileIcon { glyph: "babel", color: "#cbcb41" });
    }
    if text::eq_str(base, "pom.xml") {
        return Some(FileIcon { glyph: "maven", color: "#cc3e44" });
    }
    if text::eq_str(base, "cargo.toml") ||
        text::eq_str(base, "cargo.lock") ||
        text::eq_str(base, "rust-toolchain") ||
        text::eq_str(base, "rust-toolchain.toml") {
        return Some(FileIcon { glyph: "config", color: "#6d8086" });
    }
    if text::eq_str(base, "go.mod") ||
        text::eq_str(base, "go.sum") {
        return Some(FileIcon { glyph: "go2", color: "#519aba" });
    }
    if text::eq_str(base, ".editorconfig") {
        return Some(FileIcon { glyph: "editorconfig", color: "#6d8086" });
    }
    if text::starts_with_str(base, ".env") {
        return Some(FileIcon { glyph: "config", color: "#6d8086" });
    }
    None
}

/// Icon by extension (`ext_icon`).
pub fn icon_by_ext(ext: &[char]) -> (icon: FileIcon)
    ensures
        icon@ == ext_icon(ext@),
{
    if text::eq_str(ext, "babelrc.cjs") ||
        text::eq_str(ext, "babelrc.js") ||
        text::eq_str(ext, "babelrc") {
        return FileIcon { glyph: "babel", color: "#cbcb41" };
    }
    if text::eq_str(ext, "cjs.map") ||
        text::eq_str(ext, "js.map") ||
        text::eq_str(ext, "mjs.map") ||
        text::eq_str(ext, "cjs") ||
        text::eq_str(ext, "es") ||
        text::eq_str(ext, "es5") ||
        text::eq_str(ext, "es7") ||
        text::eq_str(ext, "js") ||
        text::eq_str(ext, "mjs") {
        return FileIcon { glyph: "javascript", color: "#cbcb41" };
    }
    if text::eq_str(ext, "codeclimate.yml") {
        return FileIcon { glyph: "code-climate", color: "#8dc149" };
    }
    if text::eq_str(ext, "css.map") ||
        text::eq_str(ext, "css") ||
        text::eq_str(ext, "sss") {
        return FileIcon { glyph: "css", color: "#519aba" };
    }
    if text::eq_str(ext, "erb.html") ||
        text::eq_str(ext, "html.erb") ||
        text::eq_str(ext, "erb") {
        return FileIcon { glyph: "html", color: "#cc3e44" };
    }
    if text::eq_str(ext, "eslintrc.cjs") ||
        text::eq_str(ext, "eslintrc.js") ||
        text::eq_str(ext, "eslintrc.json") ||
        text::eq_str(ext, "eslintrc.yaml") ||
        text::eq_str(ext, "eslintrc.yml") ||
        text::eq_str(ext, "eslintrc") {
        return FileIcon { glyph: "eslint", color: "#a074c4" };
    }
    if text::eq_str(ext, "gitlab-ci.yml") {
        return FileIcon { glyph: "gitlab", color: "#e37933" };
    }
    if text::eq_str(ext, "npm-debug.log") {
        return FileIcon { glyph: "npm", color: "#41535b" };
    }
    if text::eq_str(ext, "php.inc") ||
        text::eq_str(ext, "php") {
        return FileIcon { glyph: "php", color: "#a074c4" };
    }
    if text::eq_str(ext, "smarty.tpl") ||
        text::eq_str(ext, "tpl") {
        return FileIcon { glyph: "smarty", color: "#cbcb41" };
    }
    if text::eq_str(ext, "spec.cjs") ||
        text::eq_str(ext, "spec.js") ||
        text::eq_str(ext, "spec.mjs") ||
        text::eq_str(ext, "test.cjs") ||
        text::eq_str(ext, "test.js") ||
        text::eq_str(ext, "test.mjs") {
        return FileIcon { glyph: "javascript", color: "#e37933" };
    }
    if text::eq_str(ext, "spec.cts") ||
        text::eq_str(ext, "spec.mts") ||
        text::eq_str(ext, "spec.ts") ||
        text::eq_str(ext, "test.cts") ||
        text::eq_str(ext, "test.mts") ||
        text::eq_str(ext, "test.ts") {
        return FileIcon { glyph: "typescript", color: "#e37933" };
    }
    if text::eq_str(ext, "spec.jsx") ||
        text::eq_str(ext, "spec.tsx") ||
        text::eq_str(ext, "test.jsx") ||
        text::eq_str(ext, "test.tsx") {
        return FileIcon { glyph: "react", color: "#e37933" };
    }
    if text::eq_str(ext, "stylelintrc.js") ||
        text::eq_str(ext, "stylelintrc.json") ||
        text::eq_str(ext, "stylelintrc.yaml") ||
        text::eq_str(ext, "stylelintrc.yml") ||
        text::eq_str(ext, "stylelintrc") {
        return FileIcon { glyph: "stylelint", color: "#d4d7d6" };
    }
    if text::eq_str(ext, "tf.json") ||
        text::eq_str(ext, "tfvars.json") ||
        text::eq_str(ext, "tf") ||
        text::eq_str(ext, "tfvars") {
        return FileIcon { glyph: "terraform", color: "#a074c4" };
    }
    if text::eq_str(ext, "3dm") ||
        text::eq_str(ext, "3ds") ||
        text::eq_str(ext, "dae") ||
        text::eq_str(ext, "obj") ||
        text::eq_str(ext, "stl") {
        return FileIcon { glyph: "svg", color: "#519aba" };
    }
    if text::eq_str(ext, "ad") ||
        text::eq_str(ext, "argdown") {
        return FileIcon { glyph: "argdown", color: "#519aba" };
    }
    if text::eq_str(ext, "ai") {
        return FileIcon { glyph: "illustrator", color: "#cbcb41" };
    }
    if text::eq_str(ext, "apex") ||
        text::eq_str(ext, "cls") {
        return FileIcon { glyph: "salesforce", color: "#519aba" };
    }
    if text::eq_str(ext, "article") ||
        text::eq_str(ext, "slide") {
        return FileIcon { glyph: "go", color: "#519aba" };
    }
    if text::eq_str(ext, "asax") ||
        text::eq_str(ext, "master") {
        return FileIcon { glyph: "html", color: "#cbcb41" };
    }
    if text::eq_str(ext, "ascx") {
        return FileIcon { glyph: "html", color: "#8dc149" };
    }
    if text::eq_str(ext, "aspx") {
        return FileIcon { glyph: "html", color: "#519aba" };
    }
    if text::eq_str(ext, "avi") ||
        text::eq_str(ext, "mov") ||
        text::eq_str(ext, "mp4") ||
        text::eq_str(ext, "mpg") ||
        text::eq_str(ext, "ogv") ||
        text::eq_str(ext, "webm") {
        return FileIcon { glyph: "video", color: "#f55385" };
    }
    if text::eq_str(ext, "avif") ||
        text::eq_str(ext, "gif") ||
        text::eq_str(ext, "jpeg") ||
        text::eq_str(ext, "jpg") ||
        text::eq_str(ext, "png") ||
        text::eq_str(ext, "pxm") ||
        text::eq_str(ext, "svgx") ||
        text::eq_str(ext, "tiff") ||
        text::eq_str(ext, "webp") {
        return FileIcon { glyph: "image", color: "#a074c4" };
    }
    if text::eq_str(ext, "bash") ||
        text::eq_str(ext, "command") ||
        text::eq_str(ext, "fish") ||
        text::eq_str(ext, "ksh") ||
        text::eq_str(ext, "sh") ||
        text::eq_str(ext, "zsh") {
        return FileIcon { glyph: "shell", color: "#8dc149" };
    }
    if text::eq_str(ext, "bat") ||
        text::eq_str(ext, "cmd") {
        return FileIcon { glyph: "windows", color: "#519aba" };
    }
    if text::eq_str(ext, "bicep") {
        return FileIcon { glyph: "bicep", color: "#519aba" };
    }
    if text::eq_str(ext, "bowerrc") {
        return FileIcon { glyph: "bower", color: "#e37933" };
    }
    if text::eq_str(ext, "bsl") {
        return FileIcon { glyph: "bsl", color: "#cc3e44" };
    }
    if text::eq_str(ext, "c") {
        return FileIcon { glyph: "c", color: "#519aba" };
    }
    if text::eq_str(ext, "cake") {
        return FileIcon { glyph: "cake", color: "#cc3e44" };
    }
    if text::eq_str(ext, "cc") ||
        text::eq_str(ext, "cpp") ||
        text::eq_str(ext, "cxx") {
        return FileIcon { glyph: "cpp", color: "#519aba" };
    }
    if text::eq_str(ext, "cer") ||
        text::eq_str(ext, "cert") ||
        text::eq_str(ext, "crt") ||
        text::eq_str(ext, "key") ||
        text::eq_str(ext, "pem") {
        return FileIcon { glyph: "lock", color: "#8dc149" };
    }
    if text::eq_str(ext, "cfc") ||
        text::eq_str(ext, "cfm") {
        return FileIcon { glyph: "coldfusion", color: "#519aba" };
    }
    if text::eq_str(ext, "cjsx") {
        return FileIcon { glyph: "react", color: "#519aba" };
    }
    if text::eq_str(ext, "class") {
        return FileIcon { glyph: "java", color: "#519aba" };
    }
    if text::eq_str(ext, "classpath") ||
        text::eq_str(ext, "java") {
        return FileIcon { glyph: "java", color: "#cc3e44" };
    }
    if text::eq_str(ext, "clj") ||
        text::eq_str(ext, "cljc") {
        return FileIcon { glyph: "clojure", color: "#8dc149" };
    }
    if text::eq_str(ext, "cmx") ||
        text::eq_str(ext, "cmxa") ||
        text::eq_str(ext, "ml") ||
        text::eq_str(ext, "mli") {
        return FileIcon { glyph: "ocaml", color: "#e37933" };
    }
    if text::eq_str(ext, "component") ||
        text::eq_str(ext, "htm") ||
        text::eq_str(ext, "html") ||
        text::eq_str(ext, "xhtml") {
        return FileIcon { glyph: "html", color: "#e37933" };
    }
    if text::eq_str(ext, "config") ||
        text::eq_str(ext, "direnv") ||
        text::eq_str(ext, "htaccess") ||
        text::eq_str(ext, "ini") ||
        text::eq_str(ext, "slugignore") ||
        text::eq_str(ext, "static") ||
        text::eq_str(ext, "toml") {
        return FileIcon { glyph: "config", color: "#6d8086" };
    }
    if text::eq_str(ext, "cr") {
        return FileIcon { glyph: "crystal", color: "#d4d7d6" };
    }
    if text::eq_str(ext, "cs") {
        return FileIcon { glyph: "c-sharp", color: "#519aba" };
    }
    if text::eq_str(ext, "cson") ||
        text::eq_str(ext, "json") ||
        text::eq_str(ext, "json5") ||
        text::eq_str(ext, "jsonc") {
        return FileIcon { glyph: "json", color: "#cbcb41" };
    }
    if text::eq_str(ext, "csv") {
        return FileIcon { glyph: "csv", color: "#8dc149" };
    }
    if text::eq_str(ext, "ctp") {
        return FileIcon { glyph: "cake_php", color: "#cc3e44" };
    }
    if text::eq_str(ext, "cts") ||
        text::eq_str(ext, "mts") ||
        text::eq_str(ext, "ts") {
        return FileIcon { glyph: "typescript", color: "#519aba" };
    }
    if text::eq_str(ext, "d") {
        return FileIcon { glyph: "d", color: "#cc3e44" };
    }
    if text::eq_str(ext, "dart") {
        return FileIcon { glyph: "dart", color: "#519aba" };
    }
    if text::eq_str(ext, "doc") ||
        text::eq_str(ext, "docx") {
        return FileIcon { glyph: "word", color: "#519aba" };
    }
    if text::eq_str(ext, "dockerignore") {
        return FileIcon { glyph: "docker", color: "#4d5a5e" };
    }
    if text::eq_str(ext, "ecr") ||
        text::eq_str(ext, "slang") {
        return FileIcon { glyph: "crystal_embedded", color: "#d4d7d6" };
    }
    if text::eq_str(ext, "edn") {
        return FileIcon { glyph: "clojure", color: "#519aba" };
    }
    if text::eq_str(ext, "ejs") {
        return FileIcon { glyph: "ejs", color: "#cbcb41" };
    }
    if text::eq_str(ext, "elm") {
        return FileIcon { glyph: "elm", color: "#519aba" };
    }
    if text::eq_str(ext, "eot") ||
        text::eq_str(ext, "otf") ||
        text::eq_str(ext, "ttf") ||
        text::eq_str(ext, "woff") ||
        text::eq_str(ext, "woff2") {
        return FileIcon { glyph: "font", color: "#cc3e44" };
    }
    if text::eq_str(ext, "epp") ||
        text::eq_str(ext, "pp") {
        return FileIcon { glyph: "puppet", color: "#cbcb41" };
    }
    if text::eq_str(ext, "erl") ||
        text::eq_str(ext, "hrl") {
        return FileIcon { glyph: "default", color: "#cc3e44" };
    }
    if text::eq_str(ext, "eslintignore") {
        return FileIcon { glyph: "eslint", color: "#4d5a5e" };
    }
    if text::eq_str(ext, "ex") {
        return FileIcon { glyph: "elixir", color: "#a074c4" };
    }
    if text::eq_str(ext, "exs") {
        return FileIcon { glyph: "elixir_script", color: "#a074c4" };
    }
    if text::eq_str(ext, "firebaserc") {
        return FileIcon { glyph: "firebase", color: "#e37933" };
    }
    if text::eq_str(ext, "flac") ||
        text::eq_str(ext, "mp3") ||
        text::eq_str(ext, "ogg") ||
        text::eq_str(ext, "wav") {
        return FileIcon { glyph: "audio", color: "#a074c4" };
    }
    if text::eq_str(ext, "fs") ||
        text::eq_str(ext, "fsi") ||
        text::eq_str(ext, "fsx") {
        return FileIcon { glyph: "f-sharp", color: "#519aba" };
    }
    if text::eq_str(ext, "gd") {
        return FileIcon { glyph: "godot", color: "#519aba" };
    }
    if text::eq_str(ext, "gitattributes") ||
        text::eq_str(ext, "gitconfig") ||
        text::eq_str(ext, "gitkeep") ||
        text::eq_str(ext, "gitmodules") {
        return FileIcon { glyph: "git", color: "#41535b" };
    }
    if text::eq_str(ext, "go") {
        return FileIcon { glyph: "go2", color: "#519aba" };
    }
    if text::eq_str(ext, "godot") {
        return FileIcon { glyph: "godot", color: "#cc3e44" };
    }
    if text::eq_str(ext, "gql") ||
        text::eq_str(ext, "graphql") ||
        text::eq_str(ext, "graphqls") {
        return FileIcon { glyph: "graphql", color: "#f55385" };
    }
    if text::eq_str(ext, "gradle") {
        return FileIcon { glyph: "gradle", color: "#519aba" };
    }
    if text::eq_str(ext, "gsp") {
        return FileIcon { glyph: "grails", color: "#8dc149" };
    }
    if text::eq_str(ext, "h") {
        return FileIcon { glyph: "c", color: "#a074c4" };
    }
    if text::eq_str(ext, "h++") ||
        text::eq_str(ext, "hh") ||
        text::eq_str(ext, "hpp") ||
        text::eq_str(ext, "hxx") {
        return FileIcon { glyph: "cpp", color: "#a074c4" };
    }
    if text::eq_str(ext, "hack") {
        return FileIcon { glyph: "hacklang", color: "#e37933" };
    }
    if text::eq_str(ext, "haml") {
        return FileIcon { glyph: "haml", color: "#cc3e44" };
    }
    if text::eq_str(ext, "happenings") {
        return FileIcon { glyph: "happenings", color: "#519aba" };
    }
    if text::eq_str(ext, "hs") ||
        text::eq_str(ext, "lhs") {
        return FileIcon { glyph: "haskell", color: "#a074c4" };
    }
    if text::eq_str(ext, "hx") {
        return FileIcon { glyph: "haxe", color: "#e37933" };
    }
    if text::eq_str(ext, "hxml") {
        return FileIcon { glyph: "haxe", color: "#a074c4" };
    }
    if text::eq_str(ext, "hxp") {
        return FileIcon { glyph: "haxe", color: "#519aba" };
    }
    if text::eq_str(ext, "hxs") {
        return FileIcon { glyph: "haxe", color: "#cbcb41" };
    }
    if text::eq_str(ext, "ico") {
        return FileIcon { glyph: "favicon", color: "#cbcb41" };
    }
    if text::eq_str(ext, "ipynb") {
        return FileIcon { glyph: "notebook", color: "#519aba" };
    }
    if text::eq_str(ext, "jade") {
        return FileIcon { glyph: "jade", color: "#cc3e44" };
    }
    if text::eq_str(ext, "jar") {
        return FileIcon { glyph: "zip", color: "#cc3e44" };
    }
    if text::eq_str(ext, "jinja") ||
        text::eq_str(ext, "jinja2") {
        return FileIcon { glyph: "jinja", color: "#cc3e44" };
    }
    if text::eq_str(ext, "jscsrc") ||
        text::eq_str(ext, "jshintrc") {
        return FileIcon { glyph: "javascript", color: "#519aba" };
    }
    if text::eq_str(ext, "kt") ||
        text::eq_str(ext, "kts") {
        return FileIcon { glyph: "kotlin", color: "#e37933" };
    }
    if text::eq_str(ext, "less") {
        return FileIcon { glyph: "less", color: "#519aba" };
    }
    if text::eq_str(ext, "liquid") {
        return FileIcon { glyph: "liquid", color: "#8dc149" };
    }
    if text::eq_str(ext, "ls") {
        return FileIcon { glyph: "livescript", color: "#519aba" };
    }
    if text::eq_str(ext, "lua") {
        return FileIcon { glyph: "lua", color: "#519aba" };
    }
    if text::eq_str(ext, "md") ||
        text::eq_str(ext, "mdx") {
        return FileIcon { glyph: "markdown", color: "#519aba" };
    }
    if text::eq_str(ext, "mdo") {
        return FileIcon { glyph: "mdo", color: "#cc3e44" };
    }
    if text::eq_str(ext, "mustache") ||
        text::eq_str(ext, "stache") {
        return FileIcon { glyph: "mustache", color: "#e37933" };
    }
    if text::eq_str(ext, "nim") ||
        text::eq_str(ext, "nims") {
        return FileIcon { glyph: "nim", color: "#cbcb41" };
    }
    if text::eq_str(ext, "nj") ||
        text::eq_str(ext, "njk") ||
        text::eq_str(ext, "njs") ||
        text::eq_str(ext, "nunj") ||
        text::eq_str(ext, "nunjs") ||
        text::eq_str(ext, "nunjucks") {
        return FileIcon { glyph: "nunjucks", color: "#8dc149" };
    }
    if text::eq_str(ext, "npmignore") ||
        text::eq_str(ext, "npmrc") {
        return FileIcon { glyph: "npm", color: "#cc3e44" };
    }
    if text::eq_str(ext, "odata") {
        return FileIcon { glyph: "odata", color: "#e37933" };
    }
    if text::eq_str(ext, "pddl") {
        return FileIcon { glyph: "pddl", color: "#a074c4" };
    }
    if text::eq_str(ext, "pdf") {
        return FileIcon { glyph: "pdf", color: "#cc3e44" };
    }
    if text::eq_str(ext, "pipeline") {
        return FileIcon { glyph: "pipeline", color: "#e37933" };
    }
    if text::eq_str(ext, "plan") {
        return FileIcon { glyph: "plan", color: "#8dc149" };
    }
    if text::eq_str(ext, "prisma") {
        return FileIcon { glyph: "prisma", color: "#519aba" };
    }
    if text::eq_str(ext, "pro") {
        return FileIcon { glyph: "prolog", color: "#e37933" };
    }
    if text::eq_str(ext, "ps1") ||
        text::eq_str(ext, "psd1") ||
        text::eq_str(ext, "psm1") {
        return FileIcon { glyph: "powershell", color: "#519aba" };
    }
    if text::eq_str(ext, "psd") {
        return FileIcon { glyph: "photoshop", color: "#519aba" };
    }
    if text::eq_str(ext, "purs") {
        return FileIcon { glyph: "purescript", color: "#d4d7d6" };
    }
    if text::eq_str(ext, "py") ||
        text::eq_str(ext, "pyi") ||
        text::eq_str(ext, "pyw") {
        return FileIcon { glyph: "python", color: "#519aba" };
    }
    if text::eq_str(ext, "r") ||
        text::eq_str(ext, "rmd") {
        return FileIcon { glyph: "R", color: "#519aba" };
    }
    if text::eq_str(ext, "rb") {
        return FileIcon { glyph: "ruby", color: "#cc3e44" };
    }
    if text::eq_str(ext, "re") {
        return FileIcon { glyph: "reasonml", color: "#cc3e44" };
    }
    if text::eq_str(ext, "res") {
        return FileIcon { glyph: "rescript", color: "#cc3e44" };
    }
    if text::eq_str(ext, "resi") {
        return FileIcon { glyph: "rescript", color: "#f55385" };
    }
    if text::eq_str(ext, "rs") {
        return FileIcon { glyph: "rust", color: "#6d8086" };
    }
    if text::eq_str(ext, "sass") ||
        text::eq_str(ext, "scss") {
        return FileIcon { glyph: "sass", color: "#f55385" };
    }
    if text::eq_str(ext, "sbt") {
        return FileIcon { glyph: "sbt", color: "#519aba" };
    }
    if text::eq_str(ext, "scala") {
        return FileIcon { glyph: "scala", color: "#cc3e44" };
    }
    if text::eq_str(ext, "slim") {
        return FileIcon { glyph: "slim", color: "#e37933" };
    }
    if text::eq_str(ext, "sol") {
        return FileIcon { glyph: "ethereum", color: "#519aba" };
    }
    if text::eq_str(ext, "soql") {
        return FileIcon { glyph: "db", color: "#519aba" };
    }
    if text::eq_str(ext, "springbeans") {
        return FileIcon { glyph: "spring", color: "#8dc149" };
    }
    if text::eq_str(ext, "sql") {
        return FileIcon { glyph: "db", color: "#f55385" };
    }
    if text::eq_str(ext, "styl") {
        return FileIcon { glyph: "stylus", color: "#8dc149" };
    }
    if text::eq_str(ext, "stylelintignore") {
        return FileIcon { glyph: "stylelint", color: "#4d5a5e" };
    }
    if text::eq_str(ext, "sublime-project") ||
        text::eq_str(ext, "sublime-workspace") {
        return FileIcon { glyph: "sublime", color: "#e37933" };
    }
    if text::eq_str(ext, "svelte") {
        return FileIcon { glyph: "svelte", color: "#cc3e44" };
    }
    if text::eq_str(ext, "svg") {
        return FileIcon { glyph: "svg", color: "#a074c4" };
    }
    if text::eq_str(ext, "swift") {
        return FileIcon { glyph: "swift", color: "#e37933" };
    }
    if text::eq_str(ext, "tex") {
        return FileIcon { glyph: "tex", color: "#cbcb41" };
    }
    if text::eq_str(ext, "tmp") {
        return FileIcon { glyph: "clock", color: "#6d8086" };
    }
    if text::eq_str(ext, "tres") {
        return FileIcon { glyph: "godot", color: "#cbcb41" };
    }
    if text::eq_str(ext, "tscn") {
        return FileIcon { glyph: "godot", color: "#a074c4" };
    }
    if text::eq_str(ext, "twig") {
        return FileIcon { glyph: "twig", color: "#8dc149" };
    }
    if text::eq_str(ext, "vala") ||
        text::eq_str(ext, "vapi") {
        return FileIcon { glyph: "vala", color: "#6d8086" };
    }
    if text::eq_str(ext, "vue") {
        return FileIcon { glyph: "vue", color: "#8dc149" };
    }
    if text::eq_str(ext, "wasm") {
        return FileIcon { glyph: "wasm", color: "#a074c4" };
    }
    if text::eq_str(ext, "wat") {
        return FileIcon { glyph: "wat", color: "#a074c4" };
    }
    if text::eq_str(ext, "wgt") {
        return FileIcon { glyph: "wgt", color: "#519aba" };
    }
    if text::eq_str(ext, "xls") ||
        text::eq_str(ext, "xlsx") {
        return FileIcon { glyph: "xls", color: "#8dc149" };
    }
    if text::eq_str(ext, "xml") {
        return FileIcon { glyph: "xml", color: "#e37933" };
    }
    if text::eq_str(ext, "yaml") ||
        text::eq_str(ext, "yml") {
        return FileIcon { glyph: "yml", color: "#a074c4" };
    }
    if text::eq_str(ext, "zig") {
        return FileIcon { glyph: "zig", color: "#e37933" };
    }
    if text::eq_str(ext, "zip") {
        return FileIcon { glyph: "zip", color: "#6d8086" };
    }
    FileIcon { glyph: "default", color: "#d4d7d6" }
}
/// `str::to_ascii_lowercase` over characters, as a sequence.
pub open spec fn lower(s: Seq<char>) -> Seq<char> {
    s.map_values(|c: char| text::spec_ascii_lower(c))
}

/// The extension that picks an icon, from a lowercase base name and the
/// standard library's extension of it: a compound extension when the name
/// ends with one, else the lowercase extension, else nothing.
pub open spec fn spec_ext_of_base(base: Seq<char>, path_ext: Option<Seq<char>>) -> Seq<char> {
    match compound_ext(base) {
        Some(c) => c,
        None => match path_ext {
            Some(e) => lower(e),
            None => Seq::empty(),
        },
    }
}

/// Icon of an entry from its lowercase base name and extension.
pub open spec fn spec_icon(base: Seq<char>, ext: Seq<char>, is_dir: bool) -> (Seq<char>, Seq<char>) {
    if is_dir {
        folder_icon()
    } else {
        match name_icon(base) {
            Some(i) => i,
            None => ext_icon(ext),
        }
    }
}

/// Position of the last `/` in `n`, or -1.
pub open spec fn last_slash(n: Seq<char>) -> int
    decreases n.len(),
{
    if n.len() == 0 {
        -1
    } else if n.last() == '/' {
        n.len() - 1
    } else {
        last_slash(n.drop_last())
    }
}

/// The file name of a path written with `/` only: when the path holds no
/// `\` or `:`, does not begin with two `/` (which Windows reads as the
/// prefix of a network or device path), and the text after its last `/`
/// is a bare name (`listing::bare_name`), that text; otherwise none is
/// stated.
pub open spec fn slash_path_name(n: Seq<char>) -> Option<Seq<char>> {
    let tail = n.subrange(last_slash(n) + 1, n.len() as int);
    if !n.contains('\\') && !n.contains(':') && !(n.len() >= 2 && n[0] == '/' && n[1] == '/')
        && listing::bare_name(tail) {
        Some(tail)
    } else {
        None
    }
}

/// `Path::file_name` of a name, as text: the final component, which is
/// never empty. `/` separates components on every platform; a path with
/// no `\` or `:` that does not begin with two `/` has no prefix on any
/// platform (Windows reads a prefix only from a drive letter and `:`, or
/// from two leading separators), so its final component is the text after
/// its last `/` when that is a bare name (`slash_path_name`); a bare name
/// comes back unchanged. For other names the platform decides, and no
/// clause says more.
#[verifier::external_body]
pub(crate) fn path_file_name(name: &str) -> (f: Option<String>)
    ensures
        f matches Some(x) ==> x@.len() > 0,
        listing::bare_name(name@) ==> f is Some && f.unwrap()@ == name@,
        slash_path_name(name@) is Some ==> f is Some && f.unwrap()@ == slash_path_name(name@).unwrap(),
{
    std::path::Path::new(name).file_name().map(|x| x.to_string_lossy().into_owned())
}

/// ASCII lowercasing never produces `/`, `\`, `:` or `.` from another
/// character.
proof fn lemma_lower_keeps_marks(c: char)
    ensures
        (text::spec_ascii_lower(c) == '/' || text::spec_ascii_lower(c) == '\\' || text::spec_ascii_lower(c)
            == ':' || text::spec_ascii_lower(c) == '.') ==> text::spec_ascii_lower(c) == c,
{
    if 'A' <= c <= 'Z' {
        assert(0x61 <= (c as u32) + 32 <= 0x7a);
    }
}

/// The lowercase form of a bare name is bare.
proof fn lemma_lower_bare(n: Seq<char>)
    requires
        listing::bare_name(n),
    ensures
        listing::bare_name(lower(n)),
{
    let l = lower(n);
    reveal_strlit(".");
    reveal_strlit("..");
    assert forall|k: int| 0 <= k < l.len() implies l[k] != '/' && l[k] != '\\' && l[k] != ':' by {
        lemma_lower_keeps_marks(n[k]);
        assert(l[k] == text::spec_ascii_lower(n[k]));
        assert(n[k] != '/' && n[k] != '\\' && n[k] != ':') by {
            if n[k] == '/' || n[k] == '\\' || n[k] == ':' {
                assert(n.contains(n[k]));
            }
        }
    }
    if l == "."@ {
        lemma_lower_keeps_marks(n[0]);
        assert(l[0] == text::spec_ascii_lower(n[0]));
        assert(n =~= "."@);
    }
    if l == ".."@ {
        lemma_lower_keeps_marks(n[0]);
        lemma_lower_keeps_marks(n[1]);
        assert(l[0] == text::spec_ascii_lower(n[0]));
        assert(l[1] == text::spec_ascii_lower(n[1]));
        assert(n =~= ".."@);
    }
}

/// The extension that picks an icon (`spec_ext_of_base`).
pub fn ext_of_base(base: &[char], path_ext: Option<&str>) -> (ext: Vec<char>)
    ensures
        ext@ == spec_ext_of_base(
            base@,
            match path_ext {
                Some(e) => Some(e@),
                None => None,
            },
        ),
{
    match compound_ext_of(base) {
        Some(c) => c,
        None => match path_ext {
            Some(e) => {
                let chars = text::chars_of(e);
                text::ascii_lower_chars(chars.as_slice())
            },
            None => Vec::new(),
        },
    }
}

/// Lowercase last path component of `name` (`name` itself when it has
/// none).
pub fn basename_lower(name: &str) -> (base: Vec<char>)
    ensures
        exists|raw: Seq<char>| base@ == lower(raw),
        listing::bare_name(name@) ==> base@ == lower(name@),
{
    let raw = match path_file_name(name) {
        Some(f) => text::chars_of(f.as_str()),
        None => text::chars_of(name),
    };
    let base = text::ascii_lower_chars(raw.as_slice());
    assert(base@ == lower(raw@));
    base
}

/// Lowercase extension of `name` that picks its icon.
pub fn ext_lower(name: &str) -> (ext: Vec<char>)
    ensures
        exists|base: Seq<char>, path_ext: Option<Seq<char>>|
            ext@ == spec_ext_of_base(base, path_ext),
        listing::bare_name(name@) ==> ext@ == spec_ext_of_base(
            lower(name@),
            listing::name_extension(lower(name@)),
        ),
{
    let base = basename_lower(name);
    let base_text = text::string_of(base.as_slice());
    let path_ext = listing::path_extension(base_text.as_str());
    let ext = match &path_ext {
        Some(e) => ext_of_base(base.as_slice(), Some(e.as_str())),
        None => ext_of_base(base.as_slice(), None),
    };
    let ghost pe = match path_ext {
        Some(e) => Some(e@),
        None => None,
    };
    assert(ext@ == spec_ext_of_base(base@, pe));
    proof {
        if listing::bare_name(name@) {
            lemma_lower_bare(name@);
        }
    }
    ext
}

/// Icon of an entry from its lowercase base name and extension.
pub fn icon_for_parts(base: &[char], ext: &[char], is_dir: bool) -> (icon: FileIcon)
    ensures
        icon@ == spec_icon(base@, ext@, is_dir),
{
    if is_dir {
        return FileIcon { glyph: "folder", color: "#dcb67a" };
    }
    match icon_by_name(base) {
        Some(i) => i,
        None => icon_by_ext(ext),
    }
}

/// Icon of a Files entry: folders get the folder glyph; files are matched
/// by their lowercase base name, then by extension.
pub fn icon_for(name: &str, is_dir: bool) -> (icon: FileIcon)
    ensures
        is_dir ==> icon@ == folder_icon(),
        !is_dir ==> exists|raw: Seq<char>, path_ext: Option<Seq<char>>|
            icon@ == spec_icon(lower(raw), spec_ext_of_base(lower(raw), path_ext), false),
        !is_dir && listing::bare_name(name@) ==> icon@ == spec_icon(
            lower(name@),
            spec_ext_of_base(lower(name@), listing::name_extension(lower(name@))),
            false,
        ),
{
    if is_dir {
        return FileIcon { glyph: "folder", color: "#dcb67a" };
    }
    let raw = match path_file_name(name) {
        Some(f) => text::chars_of(f.as_str()),
        None => text::chars_of(name),
    };
    let base = text::ascii_lower_chars(raw.as_slice());
    let base_text = text::string_of(base.as_slice());
    let path_ext = listing::path_extension(base_text.as_str());
    let ext = match &path_ext {
        Some(e) => ext_of_base(base.as_slice(), Some(e.as_str())),
        None => ext_of_base(base.as_slice(), None),
    };
    let icon = icon_for_parts(base.as_slice(), ext.as_slice(), false);
    let ghost pe = match path_ext {
        Some(e) => Some(e@),
        None => None,
    };
    assert(base@ == lower(raw@));
    assert(icon@ == spec_icon(lower(raw@), spec_ext_of_base(lower(raw@), pe), false));
    proof {
        if listing::bare_name(name@) {
            lemma_lower_bare(name@);
        }
    }
    icon
}

/// Value of a hexadecimal digit.
pub open spec fn hex_digit(c: char) -> Option<nat> {
    if '0' <= c <= '9' {
        Some(((c as u32) - 48) as nat)
    } else if 'a' <= c <= 'f' {
        Some(((c as u32) - 87) as nat)
    } else if 'A' <= c <= 'F' {
        Some(((c as u32) - 55) as nat)
    } else {
        None
    }
}

pub open spec fn all_hex(d: Seq<char>) -> bool {
    forall|i: int| 0 <= i < d.len() ==> (#[trigger] hex_digit(d[i])) is Some
}

/// Value of a string of hexadecimal digits, most significant first.
pub open spec fn hex_value(d: Seq<char>) -> nat
    decreases d.len(),
{
    if d.len() == 0 {
        0
    } else {
        hex_value(d.drop_last()) * 16 + match hex_digit(d.last()) {
            Some(v) => v,
            None => 0,
        }
    }
}

/// `u32::from_str_radix(s, 16)`: an optional `+` followed by at least one
/// hexadecimal digit, with a value that fits in 32 bits.
pub open spec fn parse_hex_u32(s: Seq<char>) -> Option<u32> {
    let d = if s.len() > 1 && s[0] == '+' {
        s.drop_first()
    } else {
        s
    };
    if d.len() > 0 && all_hex(d) && hex_value(d) <= u32::MAX {
        Some(hex_value(d) as u32)
    } else {
        None
    }
}

/// `s` without its leading `#` characters.
pub open spec fn strip_hashes(s: Seq<char>) -> Seq<char>
    decreases s.len(),
{
    if s.len() > 0 && s[0] == '#' {
        strip_hashes(s.drop_first())
    } else {
        s
    }
}

/// The `0xrrggbb` value of a tint such as `"#519aba"`; text that does not
/// parse reads as the default tint `0xd4d7d6`.
pub open spec fn spec_color_value(c: Seq<char>) -> u32 {
    match parse_hex_u32(strip_hashes(c)) {
        Some(v) => v,
        None => 0xd4d7d6,
    }
}

proof fn lemma_hex_value_prefix(d: Seq<char>, k: int)
    requires
        0 <= k <= d.len(),
    ensures
        hex_value(d.subrange(0, k)) <= hex_value(d),
    decreases d.len(),
{
    if k == d.len() {
        assert(d.subrange(0, k) =~= d);
    } else {
        assert(d.drop_last().subrange(0, k) =~= d.subrange(0, k));
        lemma_hex_value_prefix(d.drop_last(), k);
    }
}

fn hex_digit_of(c: char) -> (v: Option<u32>)
    ensures
        match v {
            Some(x) => hex_digit(c) == Some(x as nat) && x < 16,
            None => hex_digit(c) is None,
        },
{
    if '0' <= c && c <= '9' {
        Some((c as u32) - 48)
    } else if 'a' <= c && c <= 'f' {
        Some((c as u32) - 87)
    } else if 'A' <= c && c <= 'F' {
        Some((c as u32) - 55)
    } else {
        None
    }
}

/// `u32::from_str_radix(s, 16)` as an option (`parse_hex_u32`).
pub fn parse_hex(s: &[char]) -> (v: Option<u32>)
    ensures
        v == parse_hex_u32(s@),
{
    let start: usize = if s.len() > 1 && s[0] == '+' {
        1
    } else {
        0
    };
    let ghost d = s@.subrange(start as int, s@.len() as int);
    assert(d =~= (if s@.len() > 1 && s@[0] == '+' {
        s@.drop_first()
    } else {
        s@
    }));
    if start == s.len() {
        return None;
    }
    let mut v: u64 = 0;
    let mut i: usize = start;
    while i < s.len()
        invariant
            start <= i <= s@.len(),
            start < s@.len(),
            d == s@.subrange(start as int, s@.len() as int),
            d == (if s@.len() > 1 && s@[0] == '+' {
                s@.drop_first()
            } else {
                s@
            }),
            all_hex(d.subrange(0, i - start)),
            v == hex_value(d.subrange(0, i - start)),
            v <= u32::MAX,
        decreases s@.len() - i,
    {
        let ghost k = i - start;
        assert(d.subrange(0, k + 1).drop_last() =~= d.subrange(0, k));
        assert(d[k] == s@[i as int]);
        match hex_digit_of(s[i]) {
            None => {
                assert(hex_digit(d[k]) is None);
                return None;
            },
            Some(x) => {
                let nv = v * 16 + x as u64;
                if nv > 0xffff_ffff {
                    proof {
                        lemma_hex_value_prefix(d, k + 1);
                    }
                    return None;
                }
                v = nv;
                i += 1;
                assert forall|j: int| 0 <= j < k + 1 implies (#[trigger] hex_digit(
                    d.subrange(0, k + 1)[j],
                )) is Some by {
                    if j < k {
                        assert(d.subrange(0, k + 1)[j] == d.subrange(0, k)[j]);
                    }
                }
            },
        }
    }
    assert(d.subrange(0, d.len() as int) =~= d);
    Some(v as u32)
}

/// The `0xrrggbb` value of a tint (`spec_color_value`).
pub fn color_value(c: &str) -> (v: u32)
    ensures
        v == spec_color_value(c@),
{
    let chars = text::chars_of(c);
    let mut i: usize = 0;
    assert(chars@.subrange(0, chars@.len() as int) =~= chars@);
    while i < chars.len() && chars[i] == '#'
        invariant
            0 <= i <= chars@.len(),
            strip_hashes(chars@) == strip_hashes(chars@.subrange(i as int, chars@.len() as int)),
        decreases chars@.len() - i,
    {
        assert(chars@.subrange(i as int, chars@.len() as int).drop_first() =~= chars@.subrange(
            i + 1,
            chars@.len() as int,
        ));
        i += 1;
    }
    let rest = vstd::slice::slice_subrange(chars.as_slice(), i, chars.len());
    match parse_hex(rest) {
        Some(v) => v,
        None => 0xd4d7d6,
    }
}

/// Red, green and blue bytes of a tint.
pub fn color_channels(c: &str) -> (rgb: (u8, u8, u8))
    ensures
        rgb.0 == (spec_color_value(c@) / 0x10000) % 0x100,
        rgb.1 == (spec_color_value(c@) / 0x100) % 0x100,
        rgb.2 == spec_color_value(c@) % 0x100,
{
    let n = color_value(c);
    (((n / 0x10000) % 0x100) as u8, ((n / 0x100) % 0x100) as u8, (n % 0x100) as u8)
}

} // verus!
