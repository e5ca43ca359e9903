//! The catalogue of languages and the rules by which a file is given one.

use crate::paths::{
    lowercase, lowercase_of, path_extension, path_extension_of, path_file_name, path_file_name_of,
};
use crate::text::str_eq;
use vstd::prelude::*;
use vstd::string::*;

verus! {

/// The broad use of a language.
#[derive(Debug, Clone, Copy, PartialEq, Eq, Structural)]
pub enum LanguageType {
    Programming,
    Markup,
    Data,
    Configuration,
    Documentation,
    Other,
}

impl Default for LanguageType {
    fn default() -> (kind: Self)
        ensures
            kind == LanguageType::Programming,
    {
        LanguageType::Programming
    }
}

impl LanguageType {
    /// The name of this kind of language.
    pub open spec fn label(self) -> Seq<char> {
        match self {
            LanguageType::Programming => "Programming"@,
            LanguageType::Markup => "Markup"@,
            LanguageType::Data => "Data"@,
            LanguageType::Configuration => "Configuration"@,
            LanguageType::Documentation => "Documentation"@,
            LanguageType::Other => "Other"@,
        }
    }

    /// The name of this kind of language, as a string.
    pub fn name(&self) -> (text: String)
        ensures
            text@ == self.label(),
    {
        match self {
            LanguageType::Programming => "Programming".to_string(),
            LanguageType::Markup => "Markup".to_string(),
            LanguageType::Data => "Data".to_string(),
            LanguageType::Configuration => "Configuration".to_string(),
            LanguageType::Documentation => "Documentation".to_string(),
            LanguageType::Other => "Other".to_string(),
        }
    }
}

/// Where on a line a line comment may begin.
#[derive(Debug, Clone, Copy, PartialEq, Eq, Structural)]
pub enum LineCommentPosition {
    Any,
    Start,
}

impl Default for LineCommentPosition {
    fn default() -> (position: Self)
        ensures
            position == LineCommentPosition::Any,
    {
        LineCommentPosition::Any
    }
}

/// What the catalogue knows of one language.
#[derive(Debug, Clone)]
pub struct LanguageDefinition {
    pub name: String,
    pub display_name: Option<String>,
    pub extensions: Vec<String>,
    pub filenames: Vec<String>,
    pub shebangs: Vec<String>,
    pub env: Vec<String>,
    pub mime_types: Vec<String>,
    pub line_comments: Vec<String>,
    pub multi_line_comments: Vec<(String, String)>,
    pub nested_comments: Vec<(String, String)>,
    pub doc_quotes: Vec<(String, String)>,
    pub quotes: Vec<(String, String)>,
    pub verbatim_quotes: Vec<(String, String)>,
    pub important_syntax: Vec<String>,
    pub language_type: LanguageType,
    pub is_literate: bool,
    pub is_nested: bool,
    pub is_blank: bool,
    pub case_sensitive: bool,
    pub line_comment_position: LineCommentPosition,
}

/// Whether a flag is not set.
pub fn is_false(b: &bool) -> (r: bool)
    ensures
        r == !*b,
{
    !*b
}

/// Whether a flag is set.
pub fn is_true(b: &bool) -> (r: bool)
    ensures
        r == *b,
{
    *b
}

/// The value of a flag that is set unless it is said not to be.
pub fn default_true() -> (r: bool)
    ensures
        r,
{
    true
}

/// Some entry of `names` has the lower-case form `lowered`.
pub open spec fn lists_lowered(names: Seq<String>, lowered: Seq<char>) -> bool {
    exists|i: int| 0 <= i < names.len() && lowercase_of(#[trigger] names[i]@) == lowered
}

impl LanguageDefinition {
    /// A definition that has the given name and nothing else: no extensions,
    /// no file names, no comment tokens, and the default for every flag.
    pub fn named(name: &str) -> (definition: Self)
        ensures
            definition.name@ == name@,
            definition.display_name is None,
            definition.extensions@.len() == 0,
            definition.filenames@.len() == 0,
            definition.shebangs@.len() == 0,
            definition.env@.len() == 0,
            definition.mime_types@.len() == 0,
            definition.line_comments@.len() == 0,
            definition.multi_line_comments@.len() == 0,
            definition.nested_comments@.len() == 0,
            definition.doc_quotes@.len() == 0,
            definition.quotes@.len() == 0,
            definition.verbatim_quotes@.len() == 0,
            definition.important_syntax@.len() == 0,
            definition.language_type == LanguageType::Programming,
            !definition.is_literate,
            !definition.is_nested,
            !definition.is_blank,
            definition.case_sensitive,
            definition.line_comment_position == LineCommentPosition::Any,
    {
        LanguageDefinition {
            name: name.to_string(),
            display_name: None,
            extensions: Vec::new(),
            filenames: Vec::new(),
            shebangs: Vec::new(),
            env: Vec::new(),
            mime_types: Vec::new(),
            line_comments: Vec::new(),
            multi_line_comments: Vec::new(),
            nested_comments: Vec::new(),
            doc_quotes: Vec::new(),
            quotes: Vec::new(),
            verbatim_quotes: Vec::new(),
            important_syntax: Vec::new(),
            language_type: LanguageType::Programming,
            is_literate: false,
            is_nested: false,
            is_blank: false,
            case_sensitive: true,
            line_comment_position: LineCommentPosition::Any,
        }
    }

    /// This language claims files with the extension whose lower-case form is
    /// `lowered`.
    pub open spec fn claims_extension(&self, lowered: Seq<char>) -> bool {
        lists_lowered(self.extensions@, lowered)
    }

    /// This language claims files with the name whose lower-case form is
    /// `lowered`.
    pub open spec fn claims_filename(&self, lowered: Seq<char>) -> bool {
        lists_lowered(self.filenames@, lowered)
    }
}

/// Whether some entry of `names` has the lower-case form `lowered`.
fn any_lowered(names: &Vec<String>, lowered: &str) -> (found: bool)
    ensures
        found == lists_lowered(names@, lowered@),
{
    let mut i: usize = 0;
    while i < names.len()
        invariant
            i <= names@.len(),
            forall|j: int| 0 <= j < i ==> lowercase_of(#[trigger] names@[j]@) != lowered@,
        decreases names@.len() - i,
    {
        let candidate = lowercase(names[i].as_str());
        if str_eq(candidate.as_str(), lowered) {
            return true;
        }
        i += 1;
    }
    false
}

/// The definition written down under `key`, with `key` for its name where
/// it had none.
pub open spec fn named_after(key: String, definition: LanguageDefinition) -> LanguageDefinition {
    if definition.name@.len() == 0 {
        LanguageDefinition { name: key, ..definition }
    } else {
        definition
    }
}

/// The first of `languages` that satisfies `chosen`, if any does.
pub open spec fn first_where(
    languages: Seq<LanguageDefinition>,
    chosen: spec_fn(LanguageDefinition) -> bool,
) -> Option<LanguageDefinition>
    decreases languages.len(),
{
    if languages.len() == 0 {
        None
    } else if chosen(languages[0]) {
        Some(languages[0])
    } else {
        first_where(languages.drop_first(), chosen)
    }
}

/// The language behind a reference that a lookup gave.
pub open spec fn held(found: Option<&LanguageDefinition>) -> Option<LanguageDefinition> {
    match found {
        Some(definition) => Some(*definition),
        None => None,
    }
}

/// A language that satisfies `chosen` after none that does is the first
/// that does; and where none does, there is no first.
pub proof fn lemma_first_where(
    languages: Seq<LanguageDefinition>,
    chosen: spec_fn(LanguageDefinition) -> bool,
    at: int,
)
    requires
        0 <= at <= languages.len(),
        forall|earlier: int| 0 <= earlier < at ==> !chosen(#[trigger] languages[earlier]),
        at < languages.len() ==> chosen(languages[at]),
    ensures
        first_where(languages, chosen) == if at < languages.len() {
            Some(languages[at])
        } else {
            None
        },
    decreases languages.len(),
{
    if languages.len() > 0 && at > 0 {
        assert(!chosen(languages[0]));
        let rest = languages.drop_first();
        assert forall|earlier: int| 0 <= earlier < at - 1 implies !chosen(
            #[trigger] rest[earlier],
        ) by {
            assert(rest[earlier] == languages[earlier + 1]);
        }
        lemma_first_where(rest, chosen, at - 1);
    }
}

/// The catalogue of languages, in order of precedence: where two languages
/// claim the same file, the one that stands first has it.
#[derive(Debug, Clone)]
pub struct LanguageRegistry {
    pub languages: Vec<LanguageDefinition>,
}

impl LanguageRegistry {
    /// The first language called `name`, letter for letter.
    pub open spec fn named(&self, name: Seq<char>) -> Option<LanguageDefinition> {
        first_where(self.languages@, |definition: LanguageDefinition| definition.name@ == name)
    }

    /// The language that a file name decides: the first that claims the
    /// lower-case form of the name.
    pub open spec fn for_filename(&self, filename: Seq<char>) -> Option<LanguageDefinition> {
        first_where(
            self.languages@,
            |definition: LanguageDefinition| definition.claims_filename(lowercase_of(filename)),
        )
    }

    /// The language that an extension decides: the first that claims the
    /// lower-case form of the extension.
    pub open spec fn for_extension(&self, extension: Seq<char>) -> Option<LanguageDefinition> {
        first_where(
            self.languages@,
            |definition: LanguageDefinition| definition.claims_extension(lowercase_of(extension)),
        )
    }

    /// The language that a file name and an extension decide between them:
    /// the one that the name decides, if there is a name and it decides one;
    /// otherwise the one that the extension decides, if there is an
    /// extension.
    pub open spec fn for_name_and_extension(
        &self,
        filename: Option<Seq<char>>,
        extension: Option<Seq<char>>,
    ) -> Option<LanguageDefinition> {
        if filename is Some && self.for_filename(filename->0) is Some {
            self.for_filename(filename->0)
        } else if extension is Some {
            self.for_extension(extension->0)
        } else {
            None
        }
    }

    /// The language of the file at `path`: its file name decides, and where
    /// no language claims the name, its extension does.
    pub open spec fn for_path(&self, path: Seq<char>) -> Option<LanguageDefinition> {
        self.for_name_and_extension(path_file_name_of(path), path_extension_of(path))
    }

    /// A catalogue of the given languages, in the given order.
    pub fn new(languages: Vec<LanguageDefinition>) -> (registry: Self)
        ensures
            registry.languages == languages,
    {
        LanguageRegistry { languages }
    }

    /// A catalogue of the languages that are written down under the given
    /// keys, in the given order. A language without a name is called after
    /// its key.
    pub fn from_entries(entries: Vec<(String, LanguageDefinition)>) -> (registry: Self)
        ensures
            registry.languages@.len() == entries@.len(),
            forall|i: int|
                0 <= i < entries@.len() ==> (#[trigger] registry.languages@[i]) == named_after(
                    entries@[i].0,
                    entries@[i].1,
                ),
    {
        let ghost given = entries@;
        let count = entries.len();
        let mut entries = entries;
        let mut waiting: Vec<(String, LanguageDefinition)> = Vec::new();
        while entries.len() > 0
            invariant
                count == given.len(),
                entries@.len() + waiting@.len() == count,
                forall|i: int| 0 <= i < entries@.len() ==> entries@[i] == given[i],
                forall|i: int|
                    0 <= i < waiting@.len() ==> (#[trigger] waiting@[i]) == given[count - 1 - i],
            decreases entries@.len(),
        {
            match entries.pop() {
                Some(entry) => waiting.push(entry),
                None => {},
            }
        }
        let mut languages: Vec<LanguageDefinition> = Vec::new();
        while waiting.len() > 0
            invariant
                count == given.len(),
                languages@.len() + waiting@.len() == count,
                forall|i: int|
                    0 <= i < waiting@.len() ==> (#[trigger] waiting@[i]) == given[count - 1 - i],
                forall|i: int|
                    0 <= i < languages@.len() ==> (#[trigger] languages@[i]) == named_after(
                        given[i].0,
                        given[i].1,
                    ),
            decreases waiting@.len(),
        {
            match waiting.pop() {
                Some((key, definition)) => {
                    let mut definition = definition;
                    if definition.name.as_str().is_empty() {
                        definition.name = key;
                    }
                    languages.push(definition);
                },
                None => {},
            }
        }
        LanguageRegistry { languages }
    }

    /// The first language called `name`, letter for letter.
    pub fn get_language(&self, name: &str) -> (found: Option<&LanguageDefinition>)
        ensures
            held(found) == self.named(name@),
    {
        let ghost chosen = |definition: LanguageDefinition| definition.name@ == name@;
        let mut at: usize = 0;
        while at < self.languages.len()
            invariant
                at <= self.languages@.len(),
                chosen == |definition: LanguageDefinition| definition.name@ == name@,
                forall|earlier: int|
                    0 <= earlier < at ==> !chosen(#[trigger] self.languages@[earlier]),
            decreases self.languages@.len() - at,
        {
            if str_eq(self.languages[at].name.as_str(), name) {
                proof {
                    lemma_first_where(self.languages@, chosen, at as int);
                }
                return Some(&self.languages[at]);
            }
            at += 1;
        }
        proof {
            lemma_first_where(self.languages@, chosen, at as int);
        }
        None
    }

    /// The language of files with the given extension, whatever the case of
    /// its letters.
    pub fn detect_by_extension(&self, extension: &str) -> (found: Option<&LanguageDefinition>)
        ensures
            held(found) == self.for_extension(extension@),
    {
        let lowered = lowercase(extension);
        let ghost chosen = |definition: LanguageDefinition|
            definition.claims_extension(lowercase_of(extension@));
        let mut at: usize = 0;
        while at < self.languages.len()
            invariant
                at <= self.languages@.len(),
                lowered@ == lowercase_of(extension@),
                chosen == |definition: LanguageDefinition|
                    definition.claims_extension(lowercase_of(extension@)),
                forall|earlier: int|
                    0 <= earlier < at ==> !chosen(#[trigger] self.languages@[earlier]),
            decreases self.languages@.len() - at,
        {
            if any_lowered(&self.languages[at].extensions, lowered.as_str()) {
                proof {
                    lemma_first_where(self.languages@, chosen, at as int);
                }
                return Some(&self.languages[at]);
            }
            at += 1;
        }
        proof {
            lemma_first_where(self.languages@, chosen, at as int);
        }
        None
    }

    /// The language of files with the given name, whatever the case of its
    /// letters.
    pub fn detect_by_filename(&self, filename: &str) -> (found: Option<&LanguageDefinition>)
        ensures
            held(found) == self.for_filename(filename@),
    {
        let lowered = lowercase(filename);
        let ghost chosen = |definition: LanguageDefinition|
            definition.claims_filename(lowercase_of(filename@));
        let mut at: usize = 0;
        while at < self.languages.len()
            invariant
                at <= self.languages@.len(),
                lowered@ == lowercase_of(filename@),
                chosen == |definition: LanguageDefinition|
                    definition.claims_filename(lowercase_of(filename@)),
                forall|earlier: int|
                    0 <= earlier < at ==> !chosen(#[trigger] self.languages@[earlier]),
            decreases self.languages@.len() - at,
        {
            if any_lowered(&self.languages[at].filenames, lowered.as_str()) {
                proof {
                    lemma_first_where(self.languages@, chosen, at as int);
                }
                return Some(&self.languages[at]);
            }
            at += 1;
        }
        proof {
            lemma_first_where(self.languages@, chosen, at as int);
        }
        None
    }

    /// The language that a file name and an extension decide between them: a
    /// language that claims the name comes before one that claims the
    /// extension.
    pub fn detect_by_name_and_extension(
        &self,
        filename: Option<&str>,
        extension: Option<&str>,
    ) -> (found: Option<&LanguageDefinition>)
        ensures
            held(found) == self.for_name_and_extension(
                match filename {
                    Some(name) => Some(name@),
                    None => None,
                },
                match extension {
                    Some(ext) => Some(ext@),
                    None => None,
                },
            ),
    {
        if let Some(name) = filename {
            let by_name = self.detect_by_filename(name);
            if by_name.is_some() {
                return by_name;
            }
        }
        if let Some(ext) = extension {
            return self.detect_by_extension(ext);
        }
        None
    }

    /// The language of the file at `path`: its file name decides, and where
    /// no language claims the name, its extension does.
    pub fn detect_by_path(&self, path: &str) -> (found: Option<&LanguageDefinition>)
        ensures
            held(found) == self.for_path(path@),
    {
        let filename = path_file_name(path);
        let extension = path_extension(path);
        let name: Option<&str> = match &filename {
            Some(text) => Some(text.as_str()),
            None => None,
        };
        let ext: Option<&str> = match &extension {
            Some(text) => Some(text.as_str()),
            None => None,
        };
        self.detect_by_name_and_extension(name, ext)
    }

    /// Every language of the catalogue, in order.
    pub fn all_languages(&self) -> (languages: &Vec<LanguageDefinition>)
        ensures
            *languages == self.languages,
    {
        &self.languages
    }

    /// The languages of the given kind, in the order of the catalogue.
    pub fn languages_by_type(&self, lang_type: LanguageType) -> (languages: Vec<&LanguageDefinition>)
        ensures
            languages@.map_values(|definition: &LanguageDefinition| *definition)
                == self.languages@.filter(
                |definition: LanguageDefinition| definition.language_type == lang_type,
            ),
    {
        let ghost wanted = |definition: LanguageDefinition| definition.language_type == lang_type;
        let ghost deref = |definition: &LanguageDefinition| *definition;
        let mut languages: Vec<&LanguageDefinition> = Vec::new();
        let mut at: usize = 0;
        proof {
            reveal(Seq::filter);
            assert(self.languages@.take(0) =~= Seq::<LanguageDefinition>::empty());
            assert(languages@.map_values(deref) =~= Seq::<LanguageDefinition>::empty());
        }
        while at < self.languages.len()
            invariant
                at <= self.languages@.len(),
                wanted == |definition: LanguageDefinition| definition.language_type == lang_type,
                deref == |definition: &LanguageDefinition| *definition,
                languages@.map_values(deref) == self.languages@.take(at as int).filter(wanted),
            decreases self.languages@.len() - at,
        {
            let ghost before = languages@;
            proof {
                reveal(Seq::filter);
                assert(self.languages@.take(at + 1).drop_last() =~= self.languages@.take(
                    at as int,
                ));
            }
            if self.languages[at].language_type == lang_type {
                languages.push(&self.languages[at]);
                proof {
                    assert(languages@.map_values(deref) =~= before.map_values(deref).push(
                        self.languages@[at as int],
                    ));
                }
            }
            at += 1;
        }
        proof {
            assert(self.languages@.take(at as int) =~= self.languages@);
        }
        languages
    }
}

} // verus!
