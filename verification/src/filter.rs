//! The rules that decide which entries of an archive are worth reading.

use crate::analysis::Ratio;
use crate::cli::progress::{show_size, shown_size};
use crate::paths::{
    lowercase, lowercase_of, path_components, path_components_of, path_extension,
    path_extension_of,
};
use crate::text::{
    ends_with, is_prefix, is_suffix, split, split_on, starts_with, str_eq, texts,
};
use vstd::prelude::*;
use vstd::string::*;

verus! {

/// Which entries are left out: those over a size, those in hidden, build,
/// package, test or documentation directories, those that hold binary
/// data, those that match a pattern, and those whose extension is not on a
/// list.
#[derive(Debug, Clone)]
pub struct IntelligentFilter {
    pub max_file_size: u64,
    pub ignore_hidden: bool,
    pub ignore_binary: bool,
    pub ignore_build_dirs: bool,
    pub ignore_package_dirs: bool,
    pub ignore_test_dirs: bool,
    pub ignore_docs_dirs: bool,
    pub custom_ignore_patterns: Vec<String>,
    pub allowed_extensions: Option<Vec<String>>,
}

/// Some component begins with a dot.
pub open spec fn has_hidden_component(components: Seq<Seq<char>>) -> bool {
    exists|i: int| 0 <= i < components.len() && is_prefix(#[trigger] components[i], seq!['.'])
}

/// The lower-case extensions of files that hold binary data.
pub open spec fn is_binary_extension(lowered: Seq<char>) -> bool {
    ||| lowered == "exe"@
    ||| lowered == "dll"@
    ||| lowered == "so"@
    ||| lowered == "dylib"@
    ||| lowered == "bin"@
    ||| lowered == "obj"@
    ||| lowered == "o"@
    ||| lowered == "a"@
    ||| lowered == "lib"@
    ||| lowered == "jpg"@
    ||| lowered == "jpeg"@
    ||| lowered == "png"@
    ||| lowered == "gif"@
    ||| lowered == "bmp"@
    ||| lowered == "ico"@
    ||| lowered == "svg"@
    ||| lowered == "webp"@
    ||| lowered == "tiff"@
    ||| lowered == "mp3"@
    ||| lowered == "mp4"@
    ||| lowered == "wav"@
    ||| lowered == "avi"@
    ||| lowered == "mov"@
    ||| lowered == "wmv"@
    ||| lowered == "flv"@
    ||| lowered == "mkv"@
    ||| lowered == "webm"@
    ||| lowered == "zip"@
    ||| lowered == "tar"@
    ||| lowered == "gz"@
    ||| lowered == "bz2"@
    ||| lowered == "xz"@
    ||| lowered == "7z"@
    ||| lowered == "rar"@
    ||| lowered == "jar"@
    ||| lowered == "war"@
    ||| lowered == "pdf"@
    ||| lowered == "doc"@
    ||| lowered == "docx"@
    ||| lowered == "xls"@
    ||| lowered == "xlsx"@
    ||| lowered == "ppt"@
    ||| lowered == "pptx"@
    ||| lowered == "ttf"@
    ||| lowered == "otf"@
    ||| lowered == "woff"@
    ||| lowered == "woff2"@
    ||| lowered == "eot"@
}

/// The lower-case names of directories that hold build output.
pub open spec fn is_build_name(lowered: Seq<char>) -> bool {
    ||| lowered == "target"@
    ||| lowered == "build"@
    ||| lowered == "dist"@
    ||| lowered == "out"@
    ||| lowered == ".cargo"@
    ||| is_prefix(lowered, "cmake-build-"@)
}

/// The lower-case names of directories that hold packages of others.
pub open spec fn is_package_name(lowered: Seq<char>) -> bool {
    ||| lowered == "node_modules"@
    ||| lowered == "vendor"@
    ||| lowered == ".nuget"@
    ||| lowered == "packages"@
    ||| lowered == ".pub-cache"@
    ||| lowered == "bower_components"@
}

/// The lower-case names of directories that hold tests.
pub open spec fn is_test_name(lowered: Seq<char>) -> bool {
    ||| lowered == "tests"@
    ||| lowered == "test"@
    ||| lowered == "__tests__"@
    ||| lowered == "spec"@
    ||| lowered == "__pycache__"@
}

/// The lower-case names of directories that hold documentation.
pub open spec fn is_docs_name(lowered: Seq<char>) -> bool {
    ||| lowered == "docs"@
    ||| lowered == "doc"@
    ||| lowered == "documentation"@
    ||| lowered == ".github"@
    ||| lowered == "examples"@
}

/// The lower-case form of some component satisfies `named`.
pub open spec fn has_component(components: Seq<Seq<char>>, named: spec_fn(Seq<char>) -> bool) -> bool {
    exists|i: int| 0 <= i < components.len() && named(lowercase_of(#[trigger] components[i]))
}

/// Whether `text` matches `pattern`. A pattern without a star matches
/// itself alone. A pattern with one star matches every text that begins
/// with what stands before the star and ends with what stands after it. A
/// pattern with more stars matches nothing.
pub open spec fn glob_matches(pattern: Seq<char>, text: Seq<char>) -> bool {
    let parts = split_on(pattern, '*');
    if parts.len() == 1 {
        text == pattern
    } else if parts.len() == 2 {
        is_prefix(text, parts[0]) && is_suffix(text, parts[1])
    } else {
        false
    }
}

/// `text` matches one of `patterns`.
pub open spec fn matches_any(patterns: Seq<String>, text: Seq<char>) -> bool {
    exists|i: int| 0 <= i < patterns.len() && glob_matches(#[trigger] patterns[i]@, text)
}

/// The lower-case form of one of `allowed` is `lowered`.
pub open spec fn allows(allowed: Seq<String>, lowered: Seq<char>) -> bool {
    exists|i: int| 0 <= i < allowed.len() && lowercase_of(#[trigger] allowed[i]@) == lowered
}

impl IntelligentFilter {
    /// This is the default filter: entries over a mebibyte, hidden entries,
    /// binary files and what lies in build or package directories are left
    /// out; tests and documentation are not; no pattern is ignored and
    /// every extension is let through.
    pub open spec fn is_default(&self) -> bool {
        &&& self.max_file_size == 1024 * 1024
        &&& self.ignore_hidden
        &&& self.ignore_binary
        &&& self.ignore_build_dirs
        &&& self.ignore_package_dirs
        &&& !self.ignore_test_dirs
        &&& !self.ignore_docs_dirs
        &&& self.custom_ignore_patterns@.len() == 0
        &&& self.allowed_extensions is None
    }

    /// This is the aggressive filter: beside what the default filter leaves
    /// out, tests, documentation, what matches one of five patterns and
    /// everything over half a mebibyte are left out, and only files of
    /// twenty extensions are let through.
    pub open spec fn is_aggressive(&self) -> bool {
        &&& self.max_file_size == 512 * 1024
        &&& self.ignore_hidden
        &&& self.ignore_binary
        &&& self.ignore_build_dirs
        &&& self.ignore_package_dirs
        &&& self.ignore_test_dirs
        &&& self.ignore_docs_dirs
        &&& holds_texts(self.custom_ignore_patterns@, aggressive_patterns())
        &&& self.allowed_extensions matches Some(allowed) && holds_texts(
            allowed@,
            aggressive_extensions(),
        )
    }

    /// Whether an entry is to be read, given its path, the components and
    /// the extension of the path, and its size.
    pub open spec fn accepts_parts(
        &self,
        path: Seq<char>,
        components: Seq<Seq<char>>,
        extension: Option<Seq<char>>,
        size: u64,
    ) -> bool {
        &&& size <= self.max_file_size
        &&& !(self.ignore_hidden && has_hidden_component(components))
        &&& !(self.ignore_binary && extension is Some && is_binary_extension(
            lowercase_of(extension->0),
        ))
        &&& !(self.ignore_build_dirs && has_component(
            components,
            |name: Seq<char>| is_build_name(name),
        ))
        &&& !(self.ignore_package_dirs && has_component(
            components,
            |name: Seq<char>| is_package_name(name),
        ))
        &&& !(self.ignore_test_dirs && has_component(
            components,
            |name: Seq<char>| is_test_name(name),
        ))
        &&& !(self.ignore_docs_dirs && has_component(
            components,
            |name: Seq<char>| is_docs_name(name),
        ))
        &&& !matches_any(self.custom_ignore_patterns@, path)
        &&& (self.allowed_extensions matches Some(allowed) ==> extension is Some && allows(
            allowed@,
            lowercase_of(extension->0),
        ))
    }

    /// Whether the entry at `path`, of the given size, is to be read.
    pub open spec fn accepts(&self, path: Seq<char>, size: u64) -> bool {
        self.accepts_parts(path, path_components_of(path), path_extension_of(path), size)
    }
}

/// Whether `lowered` is the lower-case extension of a file that holds
/// binary data.
pub fn binary_extension(lowered: &str) -> (binary: bool)
    ensures
        binary == is_binary_extension(lowered@),
{
    str_eq(lowered, "exe") || str_eq(lowered, "dll") || str_eq(lowered, "so") || str_eq(
        lowered,
        "dylib",
    ) || str_eq(lowered, "bin") || str_eq(lowered, "obj") || str_eq(lowered, "o") || str_eq(
        lowered,
        "a",
    ) || str_eq(lowered, "lib") || str_eq(lowered, "jpg") || str_eq(lowered, "jpeg") || str_eq(
        lowered,
        "png",
    ) || str_eq(lowered, "gif") || str_eq(lowered, "bmp") || str_eq(lowered, "ico") || str_eq(
        lowered,
        "svg",
    ) || str_eq(lowered, "webp") || str_eq(lowered, "tiff") || str_eq(lowered, "mp3") || str_eq(
        lowered,
        "mp4",
    ) || str_eq(lowered, "wav") || str_eq(lowered, "avi") || str_eq(lowered, "mov") || str_eq(
        lowered,
        "wmv",
    ) || str_eq(lowered, "flv") || str_eq(lowered, "mkv") || str_eq(lowered, "webm") || str_eq(
        lowered,
        "zip",
    ) || str_eq(lowered, "tar") || str_eq(lowered, "gz") || str_eq(lowered, "bz2") || str_eq(
        lowered,
        "xz",
    ) || str_eq(lowered, "7z") || str_eq(lowered, "rar") || str_eq(lowered, "jar") || str_eq(
        lowered,
        "war",
    ) || str_eq(lowered, "pdf") || str_eq(lowered, "doc") || str_eq(lowered, "docx") || str_eq(
        lowered,
        "xls",
    ) || str_eq(lowered, "xlsx") || str_eq(lowered, "ppt") || str_eq(lowered, "pptx") || str_eq(
        lowered,
        "ttf",
    ) || str_eq(lowered, "otf") || str_eq(lowered, "woff") || str_eq(lowered, "woff2") || str_eq(
        lowered,
        "eot",
    )
}

/// Whether `lowered` is the lower-case name of a directory of build output.
pub fn build_directory_name(lowered: &str) -> (build: bool)
    ensures
        build == is_build_name(lowered@),
{
    str_eq(lowered, "target") || str_eq(lowered, "build") || str_eq(lowered, "dist") || str_eq(
        lowered,
        "out",
    ) || str_eq(lowered, ".cargo") || starts_with(lowered, "cmake-build-")
}

/// Whether `lowered` is the lower-case name of a directory of packages.
pub fn package_directory_name(lowered: &str) -> (package: bool)
    ensures
        package == is_package_name(lowered@),
{
    str_eq(lowered, "node_modules") || str_eq(lowered, "vendor") || str_eq(lowered, ".nuget")
        || str_eq(lowered, "packages") || str_eq(lowered, ".pub-cache") || str_eq(
        lowered,
        "bower_components",
    )
}

/// Whether `lowered` is the lower-case name of a directory of tests.
pub fn test_directory_name(lowered: &str) -> (test: bool)
    ensures
        test == is_test_name(lowered@),
{
    str_eq(lowered, "tests") || str_eq(lowered, "test") || str_eq(lowered, "__tests__") || str_eq(
        lowered,
        "spec",
    ) || str_eq(lowered, "__pycache__")
}

/// Whether `lowered` is the lower-case name of a directory of
/// documentation.
pub fn docs_directory_name(lowered: &str) -> (docs: bool)
    ensures
        docs == is_docs_name(lowered@),
{
    str_eq(lowered, "docs") || str_eq(lowered, "doc") || str_eq(lowered, "documentation")
        || str_eq(lowered, ".github") || str_eq(lowered, "examples")
}

/// The lower-case form of each of `names`.
fn lowered_all(names: &Vec<String>) -> (lowered: Vec<String>)
    ensures
        lowered@.len() == names@.len(),
        forall|i: int| 0 <= i < names@.len() ==> (#[trigger] lowered@[i])@ == lowercase_of(names@[i]@),
{
    let mut lowered: Vec<String> = Vec::new();
    let mut i: usize = 0;
    while i < names.len()
        invariant
            i <= names@.len(),
            lowered@.len() == i,
            forall|j: int| 0 <= j < i ==> (#[trigger] lowered@[j])@ == lowercase_of(names@[j]@),
        decreases names@.len() - i,
    {
        lowered.push(lowercase(names[i].as_str()));
        i += 1;
    }
    lowered
}

impl Default for IntelligentFilter {
    fn default() -> (filter: Self)
        ensures
            filter.is_default(),
    {
        IntelligentFilter {
            max_file_size: 1024 * 1024,
            ignore_hidden: true,
            ignore_binary: true,
            ignore_build_dirs: true,
            ignore_package_dirs: true,
            ignore_test_dirs: false,
            ignore_docs_dirs: false,
            custom_ignore_patterns: Vec::new(),
            allowed_extensions: None,
        }
    }
}

/// The patterns that the aggressive filter ignores.
pub open spec fn aggressive_patterns() -> Seq<Seq<char>> {
    seq!["*.lock"@, "*.log"@, "*.tmp"@, "*.temp"@, "*.cache"@]
}

/// The extensions that the aggressive filter lets through.
pub open spec fn aggressive_extensions() -> Seq<Seq<char>> {
    seq![
        "rs"@,
        "js"@,
        "ts"@,
        "py"@,
        "java"@,
        "c"@,
        "cpp"@,
        "h"@,
        "hpp"@,
        "go"@,
        "php"@,
        "rb"@,
        "cs"@,
        "swift"@,
        "kt"@,
        "scala"@,
        "dart"@,
        "vue"@,
        "jsx"@,
        "tsx"@,
    ]
}

/// `strings` holds the texts `texts`, in order.
pub open spec fn holds_texts(strings: Seq<String>, texts: Seq<Seq<char>>) -> bool {
    &&& strings.len() == texts.len()
    &&& forall|i: int| 0 <= i < strings.len() ==> (#[trigger] strings[i])@ == texts[i]
}

impl IntelligentFilter {
    /// The default filter.
    pub fn new() -> (filter: Self)
        ensures
            filter.is_default(),
    {
        IntelligentFilter::default()
    }

    /// The aggressive filter.
    pub fn aggressive() -> (filter: Self)
        ensures
            filter.is_aggressive(),
    {
        let mut patterns: Vec<String> = Vec::new();
        patterns.push("*.lock".to_string());
        patterns.push("*.log".to_string());
        patterns.push("*.tmp".to_string());
        patterns.push("*.temp".to_string());
        patterns.push("*.cache".to_string());
        let mut allowed: Vec<String> = Vec::new();
        allowed.push("rs".to_string());
        allowed.push("js".to_string());
        allowed.push("ts".to_string());
        allowed.push("py".to_string());
        allowed.push("java".to_string());
        allowed.push("c".to_string());
        allowed.push("cpp".to_string());
        allowed.push("h".to_string());
        allowed.push("hpp".to_string());
        allowed.push("go".to_string());
        allowed.push("php".to_string());
        allowed.push("rb".to_string());
        allowed.push("cs".to_string());
        allowed.push("swift".to_string());
        allowed.push("kt".to_string());
        allowed.push("scala".to_string());
        allowed.push("dart".to_string());
        allowed.push("vue".to_string());
        allowed.push("jsx".to_string());
        allowed.push("tsx".to_string());
        IntelligentFilter {
            max_file_size: 512 * 1024,
            ignore_hidden: true,
            ignore_binary: true,
            ignore_build_dirs: true,
            ignore_package_dirs: true,
            ignore_test_dirs: true,
            ignore_docs_dirs: true,
            custom_ignore_patterns: patterns,
            allowed_extensions: Some(allowed),
        }
    }

    /// Whether the entry at `file_path`, of the given size, is to be read.
    pub fn should_process_file(&self, file_path: &str, file_size: u64) -> (process: bool)
        ensures
            process == self.accepts(file_path@, file_size),
    {
        let components = path_components(file_path);
        let extension = path_extension(file_path);
        let ext: Option<&str> = match &extension {
            Some(text) => Some(text.as_str()),
            None => None,
        };
        proof {
            assert(components.deep_view() =~= Seq::new(
                components@.len(),
                |i: int| components@[i]@,
            ));
        }
        self.should_process_parts(file_path, &components, ext, file_size)
    }

    /// Whether an entry is to be read, given its path, the components and
    /// the extension of the path, and its size.
    #[verifier::loop_isolation(false)]
    pub fn should_process_parts(
        &self,
        file_path: &str,
        components: &Vec<String>,
        extension: Option<&str>,
        file_size: u64,
    ) -> (process: bool)
        ensures
            process == self.accepts_parts(
                file_path@,
                Seq::new(components@.len(), |i: int| components@[i]@),
                match extension {
                    Some(text) => Some(text@),
                    None => None,
                },
                file_size,
            ),
    {
        let ghost parts = Seq::new(components@.len(), |i: int| components@[i]@);
        if file_size > self.max_file_size {
            return false;
        }
        if self.ignore_hidden && self.is_hidden_file(components) {
            return false;
        }
        let lowered_extension: Option<String> = match extension {
            Some(text) => Some(lowercase(text)),
            None => None,
        };
        if self.ignore_binary && self.is_binary_file(&lowered_extension) {
            return false;
        }
        let lowered = lowered_all(components);
        proof {
            assert forall|named: spec_fn(Seq<char>) -> bool| #[trigger]
                has_component(parts, named) == (exists|i: int|
                    0 <= i < lowered@.len() && named((#[trigger] lowered@[i])@)) by {
                if has_component(parts, named) {
                    let i = choose|i: int|
                        0 <= i < parts.len() && named(lowercase_of(#[trigger] parts[i]));
                    assert(named(lowered@[i]@));
                }
                if exists|i: int| 0 <= i < lowered@.len() && named((#[trigger] lowered@[i])@) {
                    let i = choose|i: int|
                        0 <= i < lowered@.len() && named((#[trigger] lowered@[i])@);
                    assert(named(lowercase_of(parts[i])));
                }
            }
        }
        if self.ignore_build_dirs && self.is_in_build_directory(&lowered) {
            return false;
        }
        if self.ignore_package_dirs && self.is_in_package_directory(&lowered) {
            return false;
        }
        if self.ignore_test_dirs && self.is_in_test_directory(&lowered) {
            return false;
        }
        if self.ignore_docs_dirs && self.is_in_docs_directory(&lowered) {
            return false;
        }
        if self.matches_custom_ignore_patterns(file_path) {
            return false;
        }
        match &self.allowed_extensions {
            Some(allowed) => match &lowered_extension {
                Some(ext) => {
                    let mut i: usize = 0;
                    while i < allowed.len()
                        invariant
                            i <= allowed@.len(),
                            forall|j: int|
                                0 <= j < i ==> lowercase_of(#[trigger] allowed@[j]@) != ext@,
                        decreases allowed@.len() - i,
                    {
                        let candidate = lowercase(allowed[i].as_str());
                        if str_eq(candidate.as_str(), ext.as_str()) {
                            assert(allows(allowed@, ext@));
                            return true;
                        }
                        i += 1;
                    }
                    false
                },
                None => false,
            },
            None => true,
        }
    }

    /// Whether some component begins with a dot.
    pub fn is_hidden_file(&self, components: &Vec<String>) -> (hidden: bool)
        ensures
            hidden == has_hidden_component(Seq::new(components@.len(), |i: int| components@[i]@)),
    {
        let ghost parts = Seq::new(components@.len(), |i: int| components@[i]@);
        let mut i: usize = 0;
        while i < components.len()
            invariant
                i <= components@.len(),
                parts == Seq::new(components@.len(), |i: int| components@[i]@),
                forall|j: int| 0 <= j < i ==> !is_prefix(#[trigger] parts[j], seq!['.']),
            decreases components@.len() - i,
        {
            proof {
                reveal_strlit(".");
                assert("."@ =~= seq!['.']);
            }
            if starts_with(components[i].as_str(), ".") {
                assert(is_prefix(parts[i as int], seq!['.']));
                return true;
            }
            i += 1;
        }
        false
    }

    /// Whether the lower-case extension, if there is one, is that of a file
    /// that holds binary data.
    pub fn is_binary_file(&self, lowered_extension: &Option<String>) -> (binary: bool)
        ensures
            binary == (lowered_extension matches Some(ext) && is_binary_extension(ext@)),
    {
        match lowered_extension {
            Some(ext) => binary_extension(ext.as_str()),
            None => false,
        }
    }

    /// Whether one of the lower-case components names a directory of build
    /// output.
    pub fn is_in_build_directory(&self, lowered: &Vec<String>) -> (inside: bool)
        ensures
            inside == exists|i: int| 0 <= i < lowered@.len() && is_build_name((#[trigger] lowered@[i])@),
    {
        let mut i: usize = 0;
        while i < lowered.len()
            invariant
                i <= lowered@.len(),
                forall|j: int| 0 <= j < i ==> !is_build_name((#[trigger] lowered@[j])@),
            decreases lowered@.len() - i,
        {
            if build_directory_name(lowered[i].as_str()) {
                return true;
            }
            i += 1;
        }
        false
    }

    /// Whether one of the lower-case components names a directory of
    /// packages.
    pub fn is_in_package_directory(&self, lowered: &Vec<String>) -> (inside: bool)
        ensures
            inside == exists|i: int|
                0 <= i < lowered@.len() && is_package_name((#[trigger] lowered@[i])@),
    {
        let mut i: usize = 0;
        while i < lowered.len()
            invariant
                i <= lowered@.len(),
                forall|j: int| 0 <= j < i ==> !is_package_name((#[trigger] lowered@[j])@),
            decreases lowered@.len() - i,
        {
            if package_directory_name(lowered[i].as_str()) {
                return true;
            }
            i += 1;
        }
        false
    }

    /// Whether one of the lower-case components names a directory of tests.
    pub fn is_in_test_directory(&self, lowered: &Vec<String>) -> (inside: bool)
        ensures
            inside == exists|i: int| 0 <= i < lowered@.len() && is_test_name((#[trigger] lowered@[i])@),
    {
        let mut i: usize = 0;
        while i < lowered.len()
            invariant
                i <= lowered@.len(),
                forall|j: int| 0 <= j < i ==> !is_test_name((#[trigger] lowered@[j])@),
            decreases lowered@.len() - i,
        {
            if test_directory_name(lowered[i].as_str()) {
                return true;
            }
            i += 1;
        }
        false
    }

    /// Whether one of the lower-case components names a directory of
    /// documentation.
    pub fn is_in_docs_directory(&self, lowered: &Vec<String>) -> (inside: bool)
        ensures
            inside == exists|i: int| 0 <= i < lowered@.len() && is_docs_name((#[trigger] lowered@[i])@),
    {
        let mut i: usize = 0;
        while i < lowered.len()
            invariant
                i <= lowered@.len(),
                forall|j: int| 0 <= j < i ==> !is_docs_name((#[trigger] lowered@[j])@),
            decreases lowered@.len() - i,
        {
            if docs_directory_name(lowered[i].as_str()) {
                return true;
            }
            i += 1;
        }
        false
    }

    /// Whether `file_path` matches one of the patterns to ignore.
    pub fn matches_custom_ignore_patterns(&self, file_path: &str) -> (matched: bool)
        ensures
            matched == matches_any(self.custom_ignore_patterns@, file_path@),
    {
        let mut i: usize = 0;
        while i < self.custom_ignore_patterns.len()
            invariant
                i <= self.custom_ignore_patterns@.len(),
                forall|j: int|
                    0 <= j < i ==> !glob_matches(
                        #[trigger] self.custom_ignore_patterns@[j]@,
                        file_path@,
                    ),
            decreases self.custom_ignore_patterns@.len() - i,
        {
            if self.glob_match(self.custom_ignore_patterns[i].as_str(), file_path) {
                return true;
            }
            i += 1;
        }
        false
    }

    /// Whether `text` matches `pattern`.
    pub fn glob_match(&self, pattern: &str, text: &str) -> (matched: bool)
        ensures
            matched == glob_matches(pattern@, text@),
    {
        let parts = split(pattern, '*');
        if parts.len() == 1 {
            str_eq(text, pattern)
        } else if parts.len() == 2 {
            starts_with(text, parts[0].as_str()) && ends_with(text, parts[1].as_str())
        } else {
            false
        }
    }
}

/// How many entries were seen, how many of them were left out, and how many
/// bytes that saved.
#[derive(Debug)]
pub struct FilterStats {
    pub total_entries: usize,
    pub filtered_out: usize,
    pub processed: usize,
    pub bytes_saved: u64,
}

impl FilterStats {
    /// One more entry can be counted.
    pub open spec fn can_record(&self, file_size: u64, was_filtered: bool) -> bool {
        &&& self.total_entries < usize::MAX
        &&& was_filtered ==> self.filtered_out < usize::MAX && self.bytes_saved + file_size
            <= u64::MAX
        &&& !was_filtered ==> self.processed < usize::MAX
    }

    /// The tally after one more entry of the given size has been counted,
    /// as left out or as read.
    pub open spec fn with_entry(self, file_size: u64, was_filtered: bool) -> FilterStats {
        FilterStats {
            total_entries: (self.total_entries + 1) as usize,
            filtered_out: if was_filtered {
                (self.filtered_out + 1) as usize
            } else {
                self.filtered_out
            },
            processed: if was_filtered {
                self.processed
            } else {
                (self.processed + 1) as usize
            },
            bytes_saved: if was_filtered {
                (self.bytes_saved + file_size) as u64
            } else {
                self.bytes_saved
            },
        }
    }

    /// The entries seen are those left out and those read.
    pub open spec fn in_step(&self) -> bool {
        self.total_entries == self.filtered_out + self.processed
    }

    /// The tally of nothing.
    pub open spec fn zero() -> FilterStats {
        FilterStats { total_entries: 0, filtered_out: 0, processed: 0, bytes_saved: 0 }
    }

    /// Nothing seen yet.
    pub fn new() -> (stats: Self)
        ensures
            stats == FilterStats::zero(),
            stats.in_step(),
    {
        FilterStats { total_entries: 0, filtered_out: 0, processed: 0, bytes_saved: 0 }
    }

    /// Whether `record_entry` may be called with these arguments.
    pub fn has_room_for(&self, file_size: u64, was_filtered: bool) -> (room: bool)
        ensures
            room == self.can_record(file_size, was_filtered),
    {
        if self.total_entries == usize::MAX {
            return false;
        }
        if was_filtered {
            self.filtered_out < usize::MAX && self.bytes_saved <= u64::MAX - file_size
        } else {
            self.processed < usize::MAX
        }
    }

    /// Counts one entry: as left out, with the bytes that this saved, or as
    /// read.
    pub fn record_entry(&mut self, file_size: u64, was_filtered: bool)
        requires
            old(self).can_record(file_size, was_filtered),
        ensures
            *final(self) == old(self).with_entry(file_size, was_filtered),
            final(self).total_entries == old(self).total_entries + 1,
            final(self).filtered_out == old(self).filtered_out + if was_filtered {
                1int
            } else {
                0
            },
            final(self).bytes_saved == old(self).bytes_saved + if was_filtered {
                file_size as int
            } else {
                0
            },
            final(self).processed == old(self).processed + if was_filtered {
                0int
            } else {
                1
            },
            old(self).in_step() ==> final(self).in_step(),
    {
        self.total_entries += 1;
        if was_filtered {
            self.filtered_out += 1;
            self.bytes_saved += file_size;
        } else {
            self.processed += 1;
        }
    }

    /// The bytes saved as they are shown, in units up to the gibibyte.
    pub fn format_bytes_saved(&self) -> (text: String)
        ensures
            text@ == shown_size(self.bytes_saved, 3),
    {
        show_size(self.bytes_saved, 3)
    }

    /// The entries left out over the entries seen; zero where none was
    /// seen.
    pub fn filter_ratio(&self) -> (ratio: Ratio)
        ensures
            ratio == Ratio::of(self.filtered_out, self.total_entries),
    {
        Ratio::new(self.filtered_out, self.total_entries)
    }
}

} // verus!
