//! File, language and project statistics, and the rules by which they
//! accumulate.

use crate::error::{AnalysisError, Result};
use crate::text::{
    decimal, decimal_string, lemma_lex_le_antisymmetric, lemma_lex_le_reflexive,
    lemma_lex_le_total, lemma_lex_le_transitive, lex_le, str_eq, str_le,
};
use vstd::relations::sorted_by;
use vstd::seq_lib::{
    commutative_foldl, lemma_fold_left_permutation, to_multiset_build, to_multiset_contains,
    to_multiset_insert,
};
use vstd::prelude::*;
use vstd::string::*;

verus! {

/// The kind of content a file holds.
#[derive(Debug, Clone, Copy, PartialEq, Eq, Structural)]
pub enum FileCategory {
    Source,
    Documentation,
    Configuration,
    Data,
    Binary,
    Test,
    Build,
}

impl Default for FileCategory {
    fn default() -> (category: Self)
        ensures
            category == FileCategory::Source,
    {
        FileCategory::Source
    }
}

impl FileCategory {
    /// The name of this category.
    pub open spec fn label(self) -> Seq<char> {
        match self {
            FileCategory::Source => "Source"@,
            FileCategory::Documentation => "Documentation"@,
            FileCategory::Configuration => "Configuration"@,
            FileCategory::Data => "Data"@,
            FileCategory::Binary => "Binary"@,
            FileCategory::Test => "Test"@,
            FileCategory::Build => "Build"@,
        }
    }

    /// The name of this category, as a string.
    pub fn name(&self) -> (text: String)
        ensures
            text@ == self.label(),
    {
        match self {
            FileCategory::Source => "Source".to_string(),
            FileCategory::Documentation => "Documentation".to_string(),
            FileCategory::Configuration => "Configuration".to_string(),
            FileCategory::Data => "Data".to_string(),
            FileCategory::Binary => "Binary".to_string(),
            FileCategory::Test => "Test".to_string(),
            FileCategory::Build => "Build".to_string(),
        }
    }
}

/// An exact quotient of two counts. The denominator is never zero: the
/// quotient of anything by zero is held as `0 / 1`.
#[derive(Debug, Clone, Copy, PartialEq, Eq, Structural)]
pub struct Ratio {
    pub numerator: usize,
    pub denominator: usize,
}

impl Ratio {
    /// `part / whole`, and zero where `whole` is zero.
    pub open spec fn of(part: usize, whole: usize) -> Ratio {
        if whole == 0 {
            Ratio { numerator: 0, denominator: 1 }
        } else {
            Ratio { numerator: part, denominator: whole }
        }
    }

    /// This ratio is the number zero.
    pub open spec fn is_zero(self) -> bool {
        self.numerator == 0 && self.denominator != 0
    }

    /// `part / whole`, and zero where `whole` is zero.
    pub fn new(part: usize, whole: usize) -> (ratio: Ratio)
        ensures
            ratio == Ratio::of(part, whole),
            ratio.denominator > 0,
    {
        if whole == 0 {
            Ratio { numerator: 0, denominator: 1 }
        } else {
            Ratio { numerator: part, denominator: whole }
        }
    }
}

/// Line counts, size and language of one file.
#[derive(Debug, Clone)]
pub struct FileMetrics {
    pub file_path: String,
    pub total_lines: usize,
    pub code_lines: usize,
    pub comment_lines: usize,
    pub blank_lines: usize,
    pub category: FileCategory,
    pub language: String,
    pub size_bytes: u64,
}

/// Why a total and the sum of its parts were refused.
pub open spec fn mismatch_reason(total: nat, sum: nat) -> Seq<char> {
    "Line count mismatch: total="@ + decimal(total) + ", sum of parts="@ + decimal(sum)
}

impl FileMetrics {
    /// The code, comment and blank lines make up the total.
    pub open spec fn counts_add_up(&self) -> bool {
        self.total_lines == self.code_lines + self.comment_lines + self.blank_lines
    }

    /// The record names a path and a language, and its counts add up.
    pub open spec fn is_valid(&self) -> bool {
        &&& self.file_path@.len() > 0
        &&& self.language@.len() > 0
        &&& self.counts_add_up()
    }

    /// Why `validate` refuses this record: the first rule it breaks.
    pub open spec fn invalid_reason(&self) -> Seq<char> {
        if self.file_path@.len() == 0 {
            "File path cannot be empty"@
        } else if self.language@.len() == 0 {
            "Language cannot be empty"@
        } else {
            "Line counts don't add up"@
        }
    }

    /// A record for the file at `file_path`, of category `Source` and size
    /// zero. Refused unless the three counts add up to `total_lines`.
    pub fn new(
        file_path: &str,
        language: String,
        total_lines: usize,
        code_lines: usize,
        comment_lines: usize,
        blank_lines: usize,
    ) -> (created: Result<Self>)
        ensures
            total_lines == code_lines + comment_lines + blank_lines ==> (created matches Ok(m)
                && m.file_path@ == file_path@ && m.language == language && m.total_lines
                == total_lines && m.code_lines == code_lines && m.comment_lines == comment_lines
                && m.blank_lines == blank_lines && m.category == FileCategory::Source
                && m.size_bytes == 0),
            total_lines != code_lines + comment_lines + blank_lines ==> (
            created matches Err(AnalysisError::InvalidStatistics { reason }) && reason@
                == mismatch_reason(
                total_lines as nat,
                (code_lines + comment_lines + blank_lines) as nat,
            )),
    {
        let sum: u128 = code_lines as u128 + comment_lines as u128 + blank_lines as u128;
        if total_lines as u128 != sum {
            let mut reason = "Line count mismatch: total=".to_string();
            reason.append(decimal_string(total_lines as u128).as_str());
            reason.append(", sum of parts=");
            reason.append(decimal_string(sum).as_str());
            return Err(AnalysisError::InvalidStatistics { reason });
        }
        Ok(
            FileMetrics {
                file_path: file_path.to_string(),
                total_lines,
                code_lines,
                comment_lines,
                blank_lines,
                category: FileCategory::Source,
                language,
                size_bytes: 0,
            },
        )
    }

    /// The same record under another category.
    pub fn with_category(self, category: FileCategory) -> (updated: Self)
        ensures
            updated == (FileMetrics { category, ..self }),
    {
        let mut updated = self;
        updated.category = category;
        updated
    }

    /// The same record with another size.
    pub fn with_size_bytes(self, size_bytes: u64) -> (updated: Self)
        ensures
            updated == (FileMetrics { size_bytes, ..self }),
    {
        let mut updated = self;
        updated.size_bytes = size_bytes;
        updated
    }

    /// Code lines over total lines; zero for a file without lines.
    pub fn complexity_ratio(&self) -> (ratio: Ratio)
        ensures
            ratio == Ratio::of(self.code_lines, self.total_lines),
    {
        Ratio::new(self.code_lines, self.total_lines)
    }

    /// Comment lines over code lines; zero for a file without code.
    pub fn documentation_ratio(&self) -> (ratio: Ratio)
        ensures
            ratio == Ratio::of(self.comment_lines, self.code_lines),
    {
        Ratio::new(self.comment_lines, self.code_lines)
    }

    /// Accepts the record exactly when it is valid, and otherwise names the
    /// first rule it breaks.
    pub fn validate(&self) -> (checked: Result<()>)
        ensures
            self.is_valid() ==> checked is Ok,
            !self.is_valid() ==> (checked matches Err(AnalysisError::InvalidStatistics { reason })
                && reason@ == self.invalid_reason()),
    {
        if self.file_path.as_str().is_empty() {
            return Err(AnalysisError::invalid_statistics("File path cannot be empty"));
        }
        if self.language.as_str().is_empty() {
            return Err(AnalysisError::invalid_statistics("Language cannot be empty"));
        }
        let sum: u128 = self.code_lines as u128 + self.comment_lines as u128
            + self.blank_lines as u128;
        if self.total_lines as u128 != sum {
            return Err(AnalysisError::invalid_statistics("Line counts don't add up"));
        }
        Ok(())
    }
}

/// Sums of line counts, sizes and files, as unbounded numbers.
pub struct Totals {
    pub lines: nat,
    pub code: nat,
    pub comments: nat,
    pub blanks: nat,
    pub bytes: nat,
    pub files: nat,
}

impl Totals {
    /// The totals of nothing.
    pub open spec fn zero() -> Totals {
        Totals { lines: 0, code: 0, comments: 0, blanks: 0, bytes: 0, files: 0 }
    }

    /// What one file contributes.
    pub open spec fn of_file(file: FileMetrics) -> Totals {
        Totals {
            lines: file.total_lines as nat,
            code: file.code_lines as nat,
            comments: file.comment_lines as nat,
            blanks: file.blank_lines as nat,
            bytes: file.size_bytes as nat,
            files: 1,
        }
    }

    /// The field-wise sum.
    pub open spec fn plus(self, other: Totals) -> Totals {
        Totals {
            lines: self.lines + other.lines,
            code: self.code + other.code,
            comments: self.comments + other.comments,
            blanks: self.blanks + other.blanks,
            bytes: self.bytes + other.bytes,
            files: self.files + other.files,
        }
    }

    /// The sum of what each of `files` contributes.
    pub open spec fn of_files(files: Seq<FileMetrics>) -> Totals
        decreases files.len(),
    {
        if files.len() == 0 {
            Totals::zero()
        } else {
            Totals::of_files(files.drop_last()).plus(Totals::of_file(files.last()))
        }
    }

    /// Every sum can be held in the machine integers of `AggregateMetrics`.
    pub open spec fn fits(self) -> bool {
        &&& self.lines <= usize::MAX
        &&& self.code <= usize::MAX
        &&& self.comments <= usize::MAX
        &&& self.blanks <= usize::MAX
        &&& self.bytes <= u64::MAX
        &&& self.files <= usize::MAX
    }
}

/// Running sums over the files seen so far.
#[derive(Debug, Clone)]
pub struct AggregateMetrics {
    pub total_lines: usize,
    pub code_lines: usize,
    pub comment_lines: usize,
    pub blank_lines: usize,
    pub total_size_bytes: u64,
    pub file_count: usize,
}

impl View for AggregateMetrics {
    type V = Totals;

    open spec fn view(&self) -> Totals {
        Totals {
            lines: self.total_lines as nat,
            code: self.code_lines as nat,
            comments: self.comment_lines as nat,
            blanks: self.blank_lines as nat,
            bytes: self.total_size_bytes as nat,
            files: self.file_count as nat,
        }
    }
}

impl Default for AggregateMetrics {
    fn default() -> (metrics: Self)
        ensures
            metrics@ == Totals::zero(),
    {
        AggregateMetrics {
            total_lines: 0,
            code_lines: 0,
            comment_lines: 0,
            blank_lines: 0,
            total_size_bytes: 0,
            file_count: 0,
        }
    }
}

impl AggregateMetrics {
    /// The sums would still fit after `metrics` is added to them.
    pub open spec fn can_incorporate(&self, metrics: &FileMetrics) -> bool {
        self@.plus(Totals::of_file(*metrics)).fits()
    }

    /// Adds the counts and the size of one file to the sums.
    pub fn incorporate(&mut self, metrics: &FileMetrics)
        requires
            old(self).can_incorporate(metrics),
        ensures
            final(self)@ == old(self)@.plus(Totals::of_file(*metrics)),
    {
        self.total_lines += metrics.total_lines;
        self.code_lines += metrics.code_lines;
        self.comment_lines += metrics.comment_lines;
        self.blank_lines += metrics.blank_lines;
        self.total_size_bytes += metrics.size_bytes;
        self.file_count += 1;
    }

    /// Whether `incorporate` may be called with `metrics`.
    pub fn has_room_for(&self, metrics: &FileMetrics) -> (room: bool)
        ensures
            room == self.can_incorporate(metrics),
    {
        self.total_lines <= usize::MAX - metrics.total_lines && self.code_lines <= usize::MAX
            - metrics.code_lines && self.comment_lines <= usize::MAX - metrics.comment_lines
            && self.blank_lines <= usize::MAX - metrics.blank_lines && self.total_size_bytes
            <= u64::MAX - metrics.size_bytes && self.file_count < usize::MAX
    }

    /// Code lines over total lines; zero where there are no lines.
    pub fn complexity_ratio(&self) -> (ratio: Ratio)
        ensures
            ratio == Ratio::of(self.code_lines, self.total_lines),
    {
        Ratio::new(self.code_lines, self.total_lines)
    }

    /// Comment lines over code lines; zero where there is no code.
    pub fn documentation_ratio(&self) -> (ratio: Ratio)
        ensures
            ratio == Ratio::of(self.comment_lines, self.code_lines),
    {
        Ratio::new(self.comment_lines, self.code_lines)
    }
}

/// The mathematical content of a language's bucket.
pub struct LanguageView {
    pub name: Seq<char>,
    pub files: Seq<FileMetrics>,
    pub totals: Totals,
}

impl LanguageView {
    /// The bucket of `name` before any file is added.
    pub open spec fn empty(name: Seq<char>) -> LanguageView {
        LanguageView { name, files: Seq::empty(), totals: Totals::zero() }
    }

    /// `file` may enter this bucket: it is valid and of this language.
    pub open spec fn accepts(self, file: FileMetrics) -> bool {
        file.is_valid() && file.language@ == self.name
    }

    /// The bucket after `file` has entered it.
    pub open spec fn with_file(self, file: FileMetrics) -> LanguageView {
        LanguageView {
            name: self.name,
            files: self.files.push(file),
            totals: self.totals.plus(Totals::of_file(file)),
        }
    }

    /// The bucket after each of `files` has entered it, in order.
    pub open spec fn with_files(self, files: Seq<FileMetrics>) -> LanguageView
        decreases files.len(),
    {
        if files.len() == 0 {
            self
        } else {
            self.with_files(files.drop_last()).with_file(files.last())
        }
    }

    /// How many of `files`, taken from the front, this bucket accepts before
    /// it meets one that it refuses.
    pub open spec fn accepted_prefix(self, files: Seq<FileMetrics>) -> nat
        decreases files.len(),
    {
        if files.len() == 0 {
            0
        } else {
            let before = self.accepted_prefix(files.drop_last());
            if before == files.len() - 1 && self.accepts(files.last()) {
                files.len()
            } else {
                before
            }
        }
    }

    /// The totals are the sums over the files held.
    pub open spec fn in_step(self) -> bool {
        self.totals == Totals::of_files(self.files)
    }
}

/// Why a file of `found` was refused by the bucket of `expected`.
pub open spec fn language_mismatch_reason(expected: Seq<char>, found: Seq<char>) -> Seq<char> {
    "Language mismatch: expected '"@ + expected + "', got '"@ + found + "'"@
}

/// Why the buckets of `first` and `second` were not merged.
pub open spec fn merge_mismatch_reason(first: Seq<char>, second: Seq<char>) -> Seq<char> {
    "Cannot merge different languages: '"@ + first + "' and '"@ + second + "'"@
}

/// What a bucket made of one language reports about itself.
#[derive(Debug, Clone)]
pub struct LanguageStatistics {
    pub language_name: String,
    pub file_count: usize,
    pub total_lines: usize,
    pub code_lines: usize,
    pub comment_lines: usize,
    pub blank_lines: usize,
    pub total_size_bytes: u64,
    pub average_file_size: Ratio,
    pub complexity_ratio: Ratio,
    pub documentation_ratio: Ratio,
}

impl LanguageStatistics {
    /// The ratios held are those that the counts held give.
    pub open spec fn ratios_follow_counts(&self) -> bool {
        &&& self.average_file_size == Ratio::of(self.total_lines, self.file_count)
        &&& self.complexity_ratio == Ratio::of(self.code_lines, self.total_lines)
        &&& self.documentation_ratio == Ratio::of(self.comment_lines, self.code_lines)
    }
}

/// The files of one language and the sums over them.
#[derive(Debug, Clone)]
pub struct LanguageAnalysis {
    pub language_name: String,
    pub file_metrics: Vec<FileMetrics>,
    pub aggregate_metrics: AggregateMetrics,
}

impl View for LanguageAnalysis {
    type V = LanguageView;

    open spec fn view(&self) -> LanguageView {
        LanguageView {
            name: self.language_name@,
            files: self.file_metrics@,
            totals: self.aggregate_metrics@,
        }
    }
}

impl LanguageAnalysis {
    /// The statistics that this bucket reports.
    pub open spec fn statistics(&self) -> LanguageStatistics {
        LanguageStatistics {
            language_name: self.language_name,
            file_count: self.file_metrics@.len() as usize,
            total_lines: self.aggregate_metrics.total_lines,
            code_lines: self.aggregate_metrics.code_lines,
            comment_lines: self.aggregate_metrics.comment_lines,
            blank_lines: self.aggregate_metrics.blank_lines,
            total_size_bytes: self.aggregate_metrics.total_size_bytes,
            average_file_size: Ratio::of(
                self.aggregate_metrics.total_lines,
                self.file_metrics@.len() as usize,
            ),
            complexity_ratio: Ratio::of(
                self.aggregate_metrics.code_lines,
                self.aggregate_metrics.total_lines,
            ),
            documentation_ratio: Ratio::of(
                self.aggregate_metrics.comment_lines,
                self.aggregate_metrics.code_lines,
            ),
        }
    }

    /// An empty bucket for `language_name`.
    pub fn new(language_name: String) -> (analysis: Self)
        ensures
            analysis.language_name == language_name,
            analysis@ == LanguageView::empty(language_name@),
    {
        LanguageAnalysis {
            language_name,
            file_metrics: Vec::new(),
            aggregate_metrics: AggregateMetrics::default(),
        }
    }

    /// Takes `metrics` into the bucket. A record that is invalid, or of
    /// another language, is refused and leaves the bucket as it was.
    pub fn add_file_metrics(&mut self, metrics: FileMetrics) -> (added: Result<()>)
        requires
            old(self)@.accepts(metrics) ==> old(self).aggregate_metrics.can_incorporate(&metrics),
        ensures
            final(self).language_name == old(self).language_name,
            old(self)@.accepts(metrics) ==> added is Ok && final(self)@ == old(self)@.with_file(
                metrics,
            ),
            !old(self)@.accepts(metrics) ==> *final(self) == *old(self),
            !metrics.is_valid() ==> (added matches Err(AnalysisError::InvalidStatistics { reason })
                && reason@ == metrics.invalid_reason()),
            metrics.is_valid() && metrics.language@ != old(self).language_name@ ==> (
            added matches Err(AnalysisError::InvalidStatistics { reason }) && reason@
                == language_mismatch_reason(old(self).language_name@, metrics.language@)),
    {
        match metrics.validate() {
            Ok(_) => {},
            Err(e) => {
                return Err(e);
            },
        }
        if !str_eq(metrics.language.as_str(), self.language_name.as_str()) {
            let mut reason = "Language mismatch: expected '".to_string();
            reason.append(self.language_name.as_str());
            reason.append("', got '");
            reason.append(metrics.language.as_str());
            reason.append("'");
            return Err(AnalysisError::InvalidStatistics { reason });
        }
        self.aggregate_metrics.incorporate(&metrics);
        self.file_metrics.push(metrics);
        Ok(())
    }

    /// Takes the files of `other`, in order, into this bucket. Buckets of
    /// different languages are not merged. Where a file of `other` is
    /// refused, those before it have entered and the rest have not.
    pub fn merge(&mut self, other: LanguageAnalysis) -> (merged: Result<()>)
        requires
            old(self).language_name@ == other.language_name@ ==> old(self)@.with_files(
                other.file_metrics@.take(old(self)@.accepted_prefix(other.file_metrics@) as int),
            ).totals.fits(),
        ensures
            final(self).language_name == old(self).language_name,
            old(self).language_name@ != other.language_name@ ==> *final(self) == *old(self) && (
            merged matches Err(AnalysisError::AggregationError { operation }) && operation@
                == merge_mismatch_reason(old(self).language_name@, other.language_name@)),
            old(self).language_name@ == other.language_name@ ==> final(self)@ == old(
                self,
            )@.with_files(
                other.file_metrics@.take(old(self)@.accepted_prefix(other.file_metrics@) as int),
            ),
            old(self).language_name@ == other.language_name@ ==> (merged is Ok <==> old(
                self,
            )@.accepted_prefix(other.file_metrics@) == other.file_metrics@.len()),
            merged is Err && old(self).language_name@ == other.language_name@ ==> merged
                is Err && (merged->Err_0) is InvalidStatistics,
    {
        if !str_eq(self.language_name.as_str(), other.language_name.as_str()) {
            let mut operation = "Cannot merge different languages: '".to_string();
            operation.append(self.language_name.as_str());
            operation.append("' and '");
            operation.append(other.language_name.as_str());
            operation.append("'");
            return Err(AnalysisError::AggregationError { operation });
        }
        let ghost start = self@;
        let ghost incoming = other.file_metrics@;
        let ghost limit = start.accepted_prefix(incoming);
        let mut files = other.file_metrics;
        let count = files.len();
        let mut waiting: Vec<FileMetrics> = Vec::new();
        while files.len() > 0
            invariant
                count == incoming.len(),
                files@.len() + waiting@.len() == count,
                forall|i: int| 0 <= i < files@.len() ==> files@[i] == incoming[i],
                forall|i: int|
                    0 <= i < waiting@.len() ==> (#[trigger] waiting@[i]) == incoming[count - 1 - i],
            decreases files@.len(),
        {
            match files.pop() {
                Some(metrics) => waiting.push(metrics),
                None => {},
            }
        }
        let mut taken: usize = 0;
        proof {
            lemma_accepted_prefix_bound(start, incoming);
            assert(incoming.take(0) =~= Seq::<FileMetrics>::empty());
        }
        while taken < count
            invariant
                count == incoming.len(),
                incoming == other.file_metrics@,
                start == old(self)@,
                old(self).language_name@ == other.language_name@,
                taken <= count,
                taken <= limit <= count,
                limit == start.accepted_prefix(incoming),
                waiting@.len() + taken == count,
                forall|i: int|
                    0 <= i < waiting@.len() ==> (#[trigger] waiting@[i]) == incoming[count - 1 - i],
                self@ == start.with_files(incoming.take(taken as int)),
                self.language_name == old(self).language_name,
                start.name == old(self).language_name@,
                start.with_files(incoming.take(limit as int)).totals.fits(),
            decreases count - taken,
        {
            let metrics = match waiting.pop() {
                Some(metrics) => metrics,
                None => {
                    return Ok(());
                },
            };
            proof {
                assert(metrics == incoming[taken as int]);
                lemma_accepted_prefix_step(start, incoming, taken as int);
                lemma_with_files_keeps_name(start, incoming.take(taken as int));
                assert(incoming.take(taken + 1).drop_last() =~= incoming.take(taken as int));
                if self@.accepts(metrics) {
                    lemma_with_files_monotone(
                        start,
                        incoming.take(limit as int),
                        (taken + 1) as int,
                    );
                    assert(incoming.take(limit as int).take(taken + 1) =~= incoming.take(
                        taken + 1,
                    ));
                }
            }
            match self.add_file_metrics(metrics) {
                Ok(_) => {},
                Err(e) => {
                    return Err(e);
                },
            }
            taken += 1;
        }
        proof {
            assert(incoming.take(taken as int) =~= incoming);
        }
        Ok(())
    }

    /// Whether `merge` may be called with `other`.
    pub fn has_room_to_merge(&self, other: &LanguageAnalysis) -> (room: bool)
        ensures
            room == (self.language_name@ == other.language_name@ ==> self@.with_files(
                other.file_metrics@.take(self@.accepted_prefix(other.file_metrics@) as int),
            ).totals.fits()),
    {
        if !str_eq(self.language_name.as_str(), other.language_name.as_str()) {
            return true;
        }
        let ghost start = self@;
        let ghost incoming = other.file_metrics@;
        let ghost limit = start.accepted_prefix(incoming);
        let mut sums = AggregateMetrics {
            total_lines: self.aggregate_metrics.total_lines,
            code_lines: self.aggregate_metrics.code_lines,
            comment_lines: self.aggregate_metrics.comment_lines,
            blank_lines: self.aggregate_metrics.blank_lines,
            total_size_bytes: self.aggregate_metrics.total_size_bytes,
            file_count: self.aggregate_metrics.file_count,
        };
        let mut at: usize = 0;
        proof {
            lemma_accepted_prefix_bound(start, incoming);
            assert(incoming.take(0) =~= Seq::<FileMetrics>::empty());
        }
        while at < other.file_metrics.len()
            invariant
                incoming == other.file_metrics@,
                start == self@,
                self.language_name@ == other.language_name@,
                limit == start.accepted_prefix(incoming),
                at <= limit <= incoming.len(),
                sums@ == start.with_files(incoming.take(at as int)).totals,
            decreases incoming.len() - at,
        {
            let file = &other.file_metrics[at];
            proof {
                lemma_accepted_prefix_step(start, incoming, at as int);
                assert(incoming.take(at + 1).drop_last() =~= incoming.take(at as int));
            }
            let accepted = file.validate().is_ok() && str_eq(
                file.language.as_str(),
                self.language_name.as_str(),
            );
            if !accepted {
                return true;
            }
            if !sums.has_room_for(file) {
                proof {
                    assert(incoming.take(at + 1).last() == *file);
                    assert(start.with_files(incoming.take(at + 1)).totals == sums@.plus(
                        Totals::of_file(*file),
                    ));
                    if start.with_files(incoming.take(limit as int)).totals.fits() {
                        lemma_with_files_monotone(
                            start,
                            incoming.take(limit as int),
                            (at + 1) as int,
                        );
                        assert(incoming.take(limit as int).take(at + 1) =~= incoming.take(at + 1));
                    }
                }
                return false;
            }
            sums.incorporate(file);
            at += 1;
        }
        proof {
            assert(incoming.take(at as int) =~= incoming);
        }
        true
    }

    /// What this bucket reports about itself.
    pub fn calculate_statistics(&self) -> (stats: LanguageStatistics)
        ensures
            stats == self.statistics(),
            stats.ratios_follow_counts(),
    {
        LanguageStatistics {
            language_name: self.language_name.clone(),
            file_count: self.file_metrics.len(),
            total_lines: self.aggregate_metrics.total_lines,
            code_lines: self.aggregate_metrics.code_lines,
            comment_lines: self.aggregate_metrics.comment_lines,
            blank_lines: self.aggregate_metrics.blank_lines,
            total_size_bytes: self.aggregate_metrics.total_size_bytes,
            average_file_size: Ratio::new(
                self.aggregate_metrics.total_lines,
                self.file_metrics.len(),
            ),
            complexity_ratio: self.aggregate_metrics.complexity_ratio(),
            documentation_ratio: self.aggregate_metrics.documentation_ratio(),
        }
    }
}

/// No more files are accepted than there are.
pub proof fn lemma_accepted_prefix_bound(bucket: LanguageView, files: Seq<FileMetrics>)
    ensures
        bucket.accepted_prefix(files) <= files.len(),
    decreases files.len(),
{
    if files.len() > 0 {
        lemma_accepted_prefix_bound(bucket, files.drop_last());
    }
}

/// The accepted prefix of a longer sequence is that of its front, until the
/// front holds a refused file.
proof fn lemma_accepted_prefix_of_front(bucket: LanguageView, files: Seq<FileMetrics>, n: int)
    requires
        0 <= n <= files.len(),
    ensures
        bucket.accepted_prefix(files.take(n)) == if bucket.accepted_prefix(files) <= n {
            bucket.accepted_prefix(files)
        } else {
            n as nat
        },
    decreases files.len(),
{
    lemma_accepted_prefix_bound(bucket, files);
    if n == files.len() {
        assert(files.take(n) =~= files);
    } else {
        let front = files.drop_last();
        assert(front.take(n) =~= files.take(n));
        lemma_accepted_prefix_of_front(bucket, front, n);
        lemma_accepted_prefix_bound(bucket, front);
    }
}

/// Every file before the accepted prefix ends is accepted, and the file at
/// its end, if there is one, is refused.
proof fn lemma_accepted_prefix_step(bucket: LanguageView, files: Seq<FileMetrics>, at: int)
    requires
        0 <= at < files.len(),
        at <= bucket.accepted_prefix(files),
    ensures
        bucket.accepts(files[at]) <==> at < bucket.accepted_prefix(files),
{
    lemma_accepted_prefix_of_front(bucket, files, at);
    lemma_accepted_prefix_of_front(bucket, files, at + 1);
    assert(files.take(at + 1).drop_last() =~= files.take(at));
    assert(files.take(at + 1).last() == files[at]);
}

/// Adding files does not rename a bucket.
proof fn lemma_with_files_keeps_name(bucket: LanguageView, files: Seq<FileMetrics>)
    ensures
        bucket.with_files(files).name == bucket.name,
    decreases files.len(),
{
    if files.len() > 0 {
        lemma_with_files_keeps_name(bucket, files.drop_last());
    }
}

/// The totals after some of the files are no larger than after all of them.
proof fn lemma_with_files_monotone(bucket: LanguageView, files: Seq<FileMetrics>, n: int)
    requires
        0 <= n <= files.len(),
        bucket.with_files(files).totals.fits(),
    ensures
        bucket.with_files(files.take(n)).totals.fits(),
    decreases files.len(),
{
    if n == files.len() {
        assert(files.take(n) =~= files);
    } else {
        let front = files.drop_last();
        assert(front.take(n) =~= files.take(n));
        lemma_with_files_monotone(bucket, front, n);
    }
}

/// `first` may stand before `second` in a report: it has more lines, or as
/// many and a name that is not later in the dictionary.
pub open spec fn ranks_before(first: LanguageStatistics, second: LanguageStatistics) -> bool {
    first.total_lines > second.total_lines || (first.total_lines == second.total_lines && lex_le(
        first.language_name@,
        second.language_name@,
    ))
}

/// `at` is the place of the first bucket named `name`.
pub open spec fn is_bucket_of(languages: Seq<LanguageView>, name: Seq<char>, at: int) -> bool {
    &&& 0 <= at < languages.len()
    &&& languages[at].name == name
    &&& forall|earlier: int| 0 <= earlier < at ==> languages[earlier].name != name
}

/// Some bucket is named `name`.
pub open spec fn has_bucket(languages: Seq<LanguageView>, name: Seq<char>) -> bool {
    exists|at: int| 0 <= at < languages.len() && languages[at].name == name
}

/// The place of the first bucket named `name`, where there is one.
pub open spec fn bucket_index(languages: Seq<LanguageView>, name: Seq<char>) -> int {
    choose|at: int| is_bucket_of(languages, name, at)
}

/// The field-wise sum of the totals of `languages`.
pub open spec fn sum_of_buckets(languages: Seq<LanguageView>) -> Totals
    decreases languages.len(),
{
    if languages.len() == 0 {
        Totals::zero()
    } else {
        sum_of_buckets(languages.drop_last()).plus(languages.last().totals)
    }
}

/// The mathematical content of a project: its buckets, in the order in which
/// their languages first appeared, and its global totals.
pub struct ProjectView {
    pub name: Seq<char>,
    pub languages: Seq<LanguageView>,
    pub global: Totals,
}

impl ProjectView {
    /// The project before any file is added.
    pub open spec fn empty(name: Seq<char>) -> ProjectView {
        ProjectView { name, languages: Seq::empty(), global: Totals::zero() }
    }

    /// The project after the valid record `file` has been added: the file
    /// has entered the bucket of its language, which is made if it was not
    /// there, and has been added to the global totals.
    pub open spec fn with_file(self, file: FileMetrics) -> ProjectView {
        let at = bucket_index(self.languages, file.language@);
        ProjectView {
            name: self.name,
            languages: if has_bucket(self.languages, file.language@) {
                self.languages.update(at, self.languages[at].with_file(file))
            } else {
                self.languages.push(LanguageView::empty(file.language@).with_file(file))
            },
            global: self.global.plus(Totals::of_file(file)),
        }
    }

    /// The project after an attempt to add `file`: a record that is not
    /// valid changes nothing.
    pub open spec fn add(self, file: FileMetrics) -> ProjectView {
        if file.is_valid() {
            self.with_file(file)
        } else {
            self
        }
    }

    /// The project after an attempt to add each of `files`, in order.
    pub open spec fn add_all(self, files: Seq<FileMetrics>) -> ProjectView
        decreases files.len(),
    {
        if files.len() == 0 {
            self
        } else {
            self.add_all(files.drop_last()).add(files.last())
        }
    }

    /// The project that results from adding each of `files`, in order, to an
    /// empty project.
    pub open spec fn built(name: Seq<char>, files: Seq<FileMetrics>) -> ProjectView {
        ProjectView::empty(name).add_all(files)
    }

    /// The global totals are the sums of the buckets' totals.
    pub open spec fn in_step(self) -> bool {
        self.global == sum_of_buckets(self.languages)
    }

    /// The sums would still fit after `file` is added: the global ones, and
    /// those of the bucket that it would enter.
    pub open spec fn has_room_for(self, file: FileMetrics) -> bool {
        &&& self.global.plus(Totals::of_file(file)).fits()
        &&& forall|at: int| #[trigger]
            is_bucket_of(self.languages, file.language@, at) ==> self.languages[at].totals.plus(
                Totals::of_file(file),
            ).fits()
    }

    /// Each of `files` is valid and has room when its turn comes, as they
    /// are added to the project in order.
    pub open spec fn takes_all(self, files: Seq<FileMetrics>) -> bool {
        forall|at: int|
            0 <= at < files.len() ==> (#[trigger] files[at]).is_valid() && self.add_all(
                files.take(at),
            ).has_room_for(files[at])
    }
}

/// The totals after an attempt to count `file`: a record that is not valid
/// counts for nothing.
pub open spec fn count_valid(totals: Totals, file: FileMetrics) -> Totals {
    if file.is_valid() {
        totals.plus(Totals::of_file(file))
    } else {
        totals
    }
}

/// The first bucket of a name is the only place that `is_bucket_of` admits.
pub proof fn lemma_bucket_index_is(languages: Seq<LanguageView>, name: Seq<char>, at: int)
    requires
        is_bucket_of(languages, name, at),
    ensures
        has_bucket(languages, name),
        bucket_index(languages, name) == at,
{
    let chosen = bucket_index(languages, name);
    assert(is_bucket_of(languages, name, chosen));
    if chosen < at {
        assert(languages[chosen].name != name);
    }
    if at < chosen {
        assert(languages[at].name != name);
    }
}

/// A name that some bucket has, has a first bucket.
pub proof fn lemma_has_bucket_has_first(languages: Seq<LanguageView>, name: Seq<char>)
    requires
        has_bucket(languages, name),
    ensures
        is_bucket_of(languages, name, bucket_index(languages, name)),
    decreases languages.len(),
{
    let witness = choose|at: int| 0 <= at < languages.len() && languages[at].name == name;
    lemma_first_bucket_before(languages, name, witness);
}

proof fn lemma_first_bucket_before(languages: Seq<LanguageView>, name: Seq<char>, bound: int)
    requires
        0 <= bound < languages.len(),
        languages[bound].name == name,
    ensures
        exists|at: int| is_bucket_of(languages, name, at),
    decreases bound,
{
    if exists|earlier: int| 0 <= earlier < bound && languages[earlier].name == name {
        let earlier = choose|earlier: int| 0 <= earlier < bound && languages[earlier].name == name;
        lemma_first_bucket_before(languages, name, earlier);
    } else {
        assert(is_bucket_of(languages, name, bound));
    }
}

/// Replacing one bucket changes the sum of the buckets by the difference.
proof fn lemma_sum_of_buckets_update(languages: Seq<LanguageView>, at: int, file: FileMetrics)
    requires
        0 <= at < languages.len(),
    ensures
        sum_of_buckets(languages.update(at, languages[at].with_file(file))) == sum_of_buckets(
            languages,
        ).plus(Totals::of_file(file)),
    decreases languages.len(),
{
    let updated = languages.update(at, languages[at].with_file(file));
    if at == languages.len() - 1 {
        assert(updated.drop_last() =~= languages.drop_last());
    } else {
        lemma_sum_of_buckets_update(languages.drop_last(), at, file);
        assert(updated.drop_last() =~= languages.drop_last().update(
            at,
            languages[at].with_file(file),
        ));
    }
}

/// Adding a file keeps the global totals equal to the sum over the buckets.
pub proof fn law_add_keeps_global_in_step(project: ProjectView, file: FileMetrics)
    requires
        project.in_step(),
    ensures
        project.add(file).in_step(),
{
    if file.is_valid() {
        if has_bucket(project.languages, file.language@) {
            lemma_has_bucket_has_first(project.languages, file.language@);
            lemma_sum_of_buckets_update(
                project.languages,
                bucket_index(project.languages, file.language@),
                file,
            );
        } else {
            let fresh = LanguageView::empty(file.language@).with_file(file);
            assert(project.languages.push(fresh).drop_last() =~= project.languages);
        }
    }
}

/// A bucket whose totals are the sums over its files stays so when a file
/// enters it.
pub proof fn law_bucket_stays_in_step(bucket: LanguageView, file: FileMetrics)
    requires
        bucket.in_step(),
    ensures
        bucket.with_file(file).in_step(),
{
    assert(bucket.files.push(file).drop_last() =~= bucket.files);
}

/// In every project built by adding files one after another, the totals of
/// each bucket are the sums over the files of the bucket, and the files of
/// the bucket are of its language.
pub proof fn law_buckets_hold_their_language(name: Seq<char>, files: Seq<FileMetrics>)
    ensures
        forall|i: int|
            0 <= i < ProjectView::built(name, files).languages.len() ==> {
                let bucket = #[trigger] ProjectView::built(name, files).languages[i];
                &&& bucket.in_step()
                &&& forall|j: int|
                    0 <= j < bucket.files.len() ==> (#[trigger] bucket.files[j]).language@
                        == bucket.name
            },
    decreases files.len(),
{
    if files.len() > 0 {
        let before = ProjectView::built(name, files.drop_last());
        let file = files.last();
        law_buckets_hold_their_language(name, files.drop_last());
        let after = ProjectView::built(name, files);
        assert(after == before.add(file));
        if file.is_valid() {
            if has_bucket(before.languages, file.language@) {
                lemma_has_bucket_has_first(before.languages, file.language@);
                let at = bucket_index(before.languages, file.language@);
                law_bucket_stays_in_step(before.languages[at], file);
                assert forall|i: int| 0 <= i < after.languages.len() implies {
                    let bucket = #[trigger] after.languages[i];
                    &&& bucket.in_step()
                    &&& forall|j: int|
                        0 <= j < bucket.files.len() ==> (#[trigger] bucket.files[j]).language@
                            == bucket.name
                } by {
                    if i != at {
                        assert(after.languages[i] == before.languages[i]);
                    }
                }
            } else {
                let fresh = LanguageView::empty(file.language@);
                assert(fresh.files =~= Seq::<FileMetrics>::empty());
                law_bucket_stays_in_step(fresh, file);
                assert forall|i: int| 0 <= i < after.languages.len() implies {
                    let bucket = #[trigger] after.languages[i];
                    &&& bucket.in_step()
                    &&& forall|j: int|
                        0 <= j < bucket.files.len() ==> (#[trigger] bucket.files[j]).language@
                            == bucket.name
                } by {
                    if i < before.languages.len() {
                        assert(after.languages[i] == before.languages[i]);
                    }
                }
            }
        }
    }
}

/// No two buckets are of the same language.
pub open spec fn distinct_languages(languages: Seq<LanguageView>) -> bool {
    forall|i: int, j: int|
        0 <= i < j < languages.len() ==> (#[trigger] languages[i]).name != (
        #[trigger] languages[j]).name
}

/// Adding a file leaves no language with two buckets.
pub proof fn law_add_keeps_languages_distinct(project: ProjectView, file: FileMetrics)
    requires
        distinct_languages(project.languages),
    ensures
        distinct_languages(project.add(file).languages),
{
    if file.is_valid() {
        let after = project.add(file).languages;
        if has_bucket(project.languages, file.language@) {
            lemma_has_bucket_has_first(project.languages, file.language@);
            assert forall|i: int, j: int| 0 <= i < j < after.len() implies (
            #[trigger] after[i]).name != (#[trigger] after[j]).name by {
                assert(after[i].name == project.languages[i].name);
                assert(after[j].name == project.languages[j].name);
            }
        } else {
            assert forall|i: int, j: int| 0 <= i < j < after.len() implies (
            #[trigger] after[i]).name != (#[trigger] after[j]).name by {
                assert(after[i] == project.languages[i]);
                if j < project.languages.len() {
                    assert(after[j] == project.languages[j]);
                }
            }
        }
    }
}

/// In every project built by adding files one after another, each language
/// has one bucket.
pub proof fn law_one_bucket_for_each_language(name: Seq<char>, files: Seq<FileMetrics>)
    ensures
        distinct_languages(ProjectView::built(name, files).languages),
    decreases files.len(),
{
    if files.len() > 0 {
        law_one_bucket_for_each_language(name, files.drop_last());
        law_add_keeps_languages_distinct(ProjectView::built(name, files.drop_last()), files.last());
    }
}

/// Two records say the same of a file: its path, its language, its
/// category, its size and its counts.
pub open spec fn same_record(first: FileMetrics, second: FileMetrics) -> bool {
    &&& first.file_path@ == second.file_path@
    &&& first.language@ == second.language@
    &&& first.category == second.category
    &&& Totals::of_file(first) == Totals::of_file(second)
}

/// Two sequences of records say the same, record by record.
pub open spec fn same_records(first: Seq<FileMetrics>, second: Seq<FileMetrics>) -> bool {
    &&& first.len() == second.len()
    &&& forall|at: int| 0 <= at < first.len() ==> same_record(#[trigger] first[at], second[at])
}

/// Two projects report the same: they have the same name and the same
/// global totals, and their buckets are, one by one, of the same language
/// and hold as many files with the same totals.
pub open spec fn same_report(first: ProjectView, second: ProjectView) -> bool {
    &&& first.name == second.name
    &&& first.global == second.global
    &&& first.languages.len() == second.languages.len()
    &&& forall|at: int|
        0 <= at < first.languages.len() ==> {
            &&& (#[trigger] first.languages[at]).name == second.languages[at].name
            &&& first.languages[at].totals == second.languages[at].totals
            &&& first.languages[at].files.len() == second.languages[at].files.len()
        }
}

/// In projects that report the same, a language has its first bucket at
/// the same place.
proof fn lemma_same_report_same_bucket(first: ProjectView, second: ProjectView, name: Seq<char>)
    requires
        same_report(first, second),
    ensures
        has_bucket(first.languages, name) == has_bucket(second.languages, name),
        has_bucket(first.languages, name) ==> bucket_index(first.languages, name) == bucket_index(
            second.languages,
            name,
        ) && is_bucket_of(first.languages, name, bucket_index(first.languages, name)),
        forall|at: int|
            is_bucket_of(first.languages, name, at) == is_bucket_of(second.languages, name, at),
{
    assert forall|at: int|
        is_bucket_of(first.languages, name, at) == is_bucket_of(second.languages, name, at) by {
        if 0 <= at < first.languages.len() {
            assert(first.languages[at].name == second.languages[at].name);
            assert forall|earlier: int| 0 <= earlier < at implies (first.languages[earlier].name
                != name) == (second.languages[earlier].name != name) by {
                assert(first.languages[earlier].name == second.languages[earlier].name);
            }
        }
    }
    if has_bucket(first.languages, name) {
        lemma_has_bucket_has_first(first.languages, name);
        let at = bucket_index(first.languages, name);
        assert(is_bucket_of(second.languages, name, at));
        lemma_bucket_index_is(second.languages, name, at);
    }
    if has_bucket(second.languages, name) {
        lemma_has_bucket_has_first(second.languages, name);
        let at = bucket_index(second.languages, name);
        assert(is_bucket_of(first.languages, name, at));
        lemma_bucket_index_is(first.languages, name, at);
    }
}

/// Projects that report the same have room for the same records.
pub proof fn lemma_same_report_same_room(
    first: ProjectView,
    second: ProjectView,
    one: FileMetrics,
    other: FileMetrics,
)
    requires
        same_report(first, second),
        same_record(one, other),
    ensures
        one.is_valid() == other.is_valid(),
        first.has_room_for(one) == second.has_room_for(other),
{
    lemma_same_report_same_bucket(first, second, one.language@);
    assert forall|at: int| #[trigger]
        is_bucket_of(first.languages, one.language@, at) implies first.languages[at].totals
        == second.languages[at].totals by {}
}

/// Projects that report the same still do after records that say the same
/// have been added to them.
pub proof fn lemma_same_report_after_add(
    first: ProjectView,
    second: ProjectView,
    one: FileMetrics,
    other: FileMetrics,
)
    requires
        same_report(first, second),
        same_record(one, other),
    ensures
        same_report(first.add(one), second.add(other)),
{
    lemma_same_report_same_bucket(first, second, one.language@);
    if one.is_valid() {
        let after = first.add(one);
        let beside = second.add(other);
        if has_bucket(first.languages, one.language@) {
            assert forall|at: int| 0 <= at < after.languages.len() implies {
                &&& (#[trigger] after.languages[at]).name == beside.languages[at].name
                &&& after.languages[at].totals == beside.languages[at].totals
                &&& after.languages[at].files.len() == beside.languages[at].files.len()
            } by {
                assert(first.languages[at].name == second.languages[at].name);
            }
        } else {
            assert forall|at: int| 0 <= at < after.languages.len() implies {
                &&& (#[trigger] after.languages[at]).name == beside.languages[at].name
                &&& after.languages[at].totals == beside.languages[at].totals
                &&& after.languages[at].files.len() == beside.languages[at].files.len()
            } by {
                if at < first.languages.len() {
                    assert(first.languages[at].name == second.languages[at].name);
                }
            }
        }
    }
}

/// A project reports the same whichever of two sequences of records that
/// say the same has been added to it.
pub proof fn lemma_same_report_after_all(
    project: ProjectView,
    first: Seq<FileMetrics>,
    second: Seq<FileMetrics>,
)
    requires
        same_records(first, second),
    ensures
        same_report(project.add_all(first), project.add_all(second)),
    decreases first.len(),
{
    if first.len() > 0 {
        assert(same_records(first.drop_last(), second.drop_last())) by {
            assert forall|at: int| 0 <= at < first.drop_last().len() implies same_record(
                #[trigger] first.drop_last()[at],
                second.drop_last()[at],
            ) by {
                assert(same_record(first[at], second[at]));
            }
        }
        lemma_same_report_after_all(project, first.drop_last(), second.drop_last());
        assert(same_record(first[first.len() - 1], second[first.len() - 1]));
        lemma_same_report_after_add(
            project.add_all(first.drop_last()),
            project.add_all(second.drop_last()),
            first.last(),
            second.last(),
        );
    }
}

/// Adding files keeps the global totals equal to the sum over the buckets.
pub proof fn lemma_add_all_keeps_step(project: ProjectView, files: Seq<FileMetrics>)
    ensures
        project.in_step() ==> project.add_all(files).in_step(),
    decreases files.len(),
{
    if files.len() > 0 && project.in_step() {
        lemma_add_all_keeps_step(project, files.drop_last());
        law_add_keeps_global_in_step(project.add_all(files.drop_last()), files.last());
    }
}

/// In every project built by adding files one after another, each global
/// total is the sum of that total over all language buckets.
pub proof fn law_global_is_sum_of_languages(name: Seq<char>, files: Seq<FileMetrics>)
    ensures
        ProjectView::built(name, files).in_step(),
        ProjectView::built(name, files).global == sum_of_buckets(
            ProjectView::built(name, files).languages,
        ),
{
    lemma_add_all_keeps_step(ProjectView::empty(name), files);
}

/// The global totals of a built project are the totals of its valid files.
pub proof fn lemma_built_global(name: Seq<char>, files: Seq<FileMetrics>)
    ensures
        ProjectView::built(name, files).global == files.fold_left(
            Totals::zero(),
            |totals: Totals, file: FileMetrics| count_valid(totals, file),
        ),
    decreases files.len(),
{
    if files.len() > 0 {
        lemma_built_global(name, files.drop_last());
    }
}

/// The global totals of a built project, and with them the number of files
/// and of lines that its summary reports, do not depend on the order in
/// which the files were added.
pub proof fn law_totals_ignore_order(
    name: Seq<char>,
    first: Seq<FileMetrics>,
    second: Seq<FileMetrics>,
)
    requires
        first.to_multiset() == second.to_multiset(),
    ensures
        ProjectView::built(name, first).global == ProjectView::built(name, second).global,
        ProjectView::built(name, first).global.files == ProjectView::built(
            name,
            second,
        ).global.files,
        ProjectView::built(name, first).global.lines == ProjectView::built(
            name,
            second,
        ).global.lines,
{
    let count = |totals: Totals, file: FileMetrics| count_valid(totals, file);
    assert(commutative_foldl(count)) by {
        assert forall|x: FileMetrics, y: FileMetrics, v: Totals| #[trigger]
            count(count(v, x), y) == count(count(v, y), x) by {}
    }
    lemma_fold_left_permutation(first, second, count, Totals::zero());
    lemma_built_global(name, first);
    lemma_built_global(name, second);
}

/// Where there are no lines at all, the ratio of code to lines is zero, and
/// so is the ratio of comments to code if the counts add up.
pub proof fn law_ratios_of_nothing(total: usize, code: usize, comments: usize, blanks: usize)
    requires
        total == 0,
    ensures
        Ratio::of(code, total).is_zero(),
        total == code + comments + blanks ==> Ratio::of(comments, code).is_zero(),
{
}

/// A bucket without files reports an average file size of zero.
pub proof fn law_average_of_no_files(bucket: LanguageAnalysis)
    requires
        bucket.file_metrics@.len() == 0,
    ensures
        bucket.statistics().average_file_size.is_zero(),
{
}

/// The buckets of a project, one for each language, in the order in which
/// the languages first appeared.
#[derive(Debug)]
pub struct LanguageAnalyses {
    pub entries: Vec<LanguageAnalysis>,
}

impl View for LanguageAnalyses {
    type V = Seq<LanguageView>;

    open spec fn view(&self) -> Seq<LanguageView> {
        Seq::new(self.entries@.len(), |i: int| self.entries@[i]@)
    }
}

impl LanguageAnalyses {
    /// No buckets.
    pub fn new() -> (buckets: Self)
        ensures
            buckets@ == Seq::<LanguageView>::empty(),
            buckets.entries@.len() == 0,
    {
        let buckets = LanguageAnalyses { entries: Vec::new() };
        assert(buckets@ =~= Seq::<LanguageView>::empty());
        buckets
    }

    /// The number of buckets.
    pub fn len(&self) -> (count: usize)
        ensures
            count == self@.len(),
    {
        self.entries.len()
    }

    /// Whether there is no bucket.
    pub fn is_empty(&self) -> (empty: bool)
        ensures
            empty == (self@.len() == 0),
    {
        self.entries.len() == 0
    }

    /// The place of the first bucket named `name`, if there is one.
    pub fn position(&self, name: &str) -> (place: Option<usize>)
        ensures
            match place {
                Some(at) => is_bucket_of(self@, name@, at as int),
                None => !has_bucket(self@, name@),
            },
    {
        let mut at: usize = 0;
        while at < self.entries.len()
            invariant
                at <= self.entries@.len(),
                forall|earlier: int| 0 <= earlier < at ==> self@[earlier].name != name@,
            decreases self.entries@.len() - at,
        {
            if str_eq(self.entries[at].language_name.as_str(), name) {
                return Some(at);
            }
            at += 1;
        }
        None
    }

    /// Whether some bucket is named `name`.
    pub fn contains_key(&self, name: &str) -> (found: bool)
        ensures
            found == has_bucket(self@, name@),
    {
        match self.position(name) {
            Some(at) => {
                proof {
                    lemma_bucket_index_is(self@, name@, at as int);
                }
                true
            },
            None => false,
        }
    }

    /// The first bucket named `name`, if there is one.
    pub fn get(&self, name: &str) -> (bucket: Option<&LanguageAnalysis>)
        ensures
            match bucket {
                Some(found) => has_bucket(self@, name@) && *found == self.entries@[bucket_index(
                    self@,
                    name@,
                )],
                None => !has_bucket(self@, name@),
            },
    {
        match self.position(name) {
            Some(at) => {
                proof {
                    lemma_bucket_index_is(self@, name@, at as int);
                }
                Some(&self.entries[at])
            },
            None => None,
        }
    }
}

/// What a project reports about itself as a whole.
#[derive(Debug, Clone)]
pub struct ProjectSummary {
    pub project_name: String,
    pub total_files: usize,
    pub total_lines: usize,
    pub total_code_lines: usize,
    pub total_comment_lines: usize,
    pub total_blank_lines: usize,
    pub total_size_bytes: u64,
    pub language_count: usize,
    pub primary_language: Option<String>,
    pub overall_complexity_ratio: Ratio,
    pub overall_documentation_ratio: Ratio,
}

/// The statistics of one project: a bucket for each language that occurs in
/// it, and totals over all of its files.
#[derive(Debug)]
pub struct ProjectAnalysis {
    pub project_name: String,
    pub language_analyses: LanguageAnalyses,
    pub global_metrics: AggregateMetrics,
}

impl View for ProjectAnalysis {
    type V = ProjectView;

    open spec fn view(&self) -> ProjectView {
        ProjectView {
            name: self.project_name@,
            languages: self.language_analyses@,
            global: self.global_metrics@,
        }
    }
}

impl Default for ProjectAnalysis {
    fn default() -> (project: Self)
        ensures
            project@ == ProjectView::empty(Seq::<char>::empty()),
    {
        ProjectAnalysis {
            project_name: String::new(),
            language_analyses: LanguageAnalyses::new(),
            global_metrics: AggregateMetrics::default(),
        }
    }
}

impl ProjectAnalysis {
    /// What each bucket reports, in the order of the buckets.
    pub open spec fn snapshots(&self) -> Seq<LanguageStatistics> {
        Seq::new(
            self.language_analyses.entries@.len(),
            |i: int| self.language_analyses.entries@[i].statistics(),
        )
    }

    /// The sums would still fit after the valid record `metrics` is added:
    /// the global ones, and those of the bucket that it would enter.
    pub open spec fn can_add(&self, metrics: &FileMetrics) -> bool {
        self@.has_room_for(*metrics)
    }

    /// `name` is the language of a bucket that may stand before every other
    /// in a report.
    pub open spec fn is_primary(&self, name: Seq<char>) -> bool {
        exists|at: int|
            0 <= at < self.snapshots().len() && (#[trigger] self.snapshots()[at]).language_name@
                == name && forall|other: int|
                0 <= other < self.snapshots().len() ==> ranks_before(
                    self.snapshots()[at],
                    #[trigger] self.snapshots()[other],
                )
    }

    /// An empty project called `project_name`.
    pub fn new(project_name: &str) -> (project: Self)
        ensures
            project@ == ProjectView::empty(project_name@),
            project.language_analyses.entries@.len() == 0,
    {
        ProjectAnalysis {
            project_name: project_name.to_string(),
            language_analyses: LanguageAnalyses::new(),
            global_metrics: AggregateMetrics::default(),
        }
    }

    /// Whether `add_file_metrics` may be called with the valid record
    /// `metrics`.
    pub fn has_room_for(&self, metrics: &FileMetrics) -> (room: bool)
        ensures
            room == self.can_add(metrics),
    {
        if !self.global_metrics.has_room_for(metrics) {
            return false;
        }
        match self.language_analyses.position(metrics.language.as_str()) {
            Some(at) => {
                let room = self.language_analyses.entries[at].aggregate_metrics.has_room_for(
                    metrics,
                );
                proof {
                    lemma_bucket_index_is(self.language_analyses@, metrics.language@, at as int);
                    assert forall|other: int|
                        is_bucket_of(
                            self.language_analyses@,
                            metrics.language@,
                            other,
                        ) implies other == at by {
                        lemma_bucket_index_is(self.language_analyses@, metrics.language@, other);
                    }
                    assert(is_bucket_of(self@.languages, metrics.language@, at as int));
                    assert(room == self@.languages[at as int].totals.plus(
                        Totals::of_file(*metrics),
                    ).fits());
                }
                room
            },
            None => {
                proof {
                    assert forall|other: int|
                        is_bucket_of(
                            self.language_analyses@,
                            metrics.language@,
                            other,
                        ) implies false by {
                        lemma_bucket_index_is(self.language_analyses@, metrics.language@, other);
                    }
                }
                true
            },
        }
    }

    /// Adds `metrics` to the bucket of its language, which is made if it is
    /// not there yet, and to the global totals. A record that is not valid
    /// is refused and leaves the project as it was.
    pub fn add_file_metrics(&mut self, metrics: FileMetrics) -> (added: Result<()>)
        requires
            metrics.is_valid() ==> old(self).can_add(&metrics),
        ensures
            final(self)@ == old(self)@.add(metrics),
            final(self).project_name == old(self).project_name,
            distinct_languages(old(self)@.languages) ==> distinct_languages(
                final(self)@.languages,
            ),
            metrics.is_valid() ==> added is Ok,
            !metrics.is_valid() ==> *final(self) == *old(self) && (
            added matches Err(AnalysisError::InvalidStatistics { reason }) && reason@
                == metrics.invalid_reason()),
    {
        proof {
            if distinct_languages(self@.languages) {
                law_add_keeps_languages_distinct(self@, metrics);
            }
        }
        match metrics.validate() {
            Ok(_) => {},
            Err(e) => {
                return Err(e);
            },
        }
        self.global_metrics.incorporate(&metrics);
        let ghost before = self.language_analyses@;
        let ghost file = metrics;
        match self.language_analyses.position(metrics.language.as_str()) {
            Some(at) => {
                proof {
                    lemma_bucket_index_is(before, metrics.language@, at as int);
                }
                let mut bucket = self.language_analyses.entries.remove(at);
                let _ = bucket.add_file_metrics(metrics);
                self.language_analyses.entries.insert(at, bucket);
                proof {
                    assert(self.language_analyses@ =~= before.update(
                        at as int,
                        before[at as int].with_file(file),
                    ));
                }
            },
            None => {
                let mut bucket = LanguageAnalysis::new(metrics.language.clone());
                let _ = bucket.add_file_metrics(metrics);
                self.language_analyses.entries.push(bucket);
                proof {
                    assert(self.language_analyses@ =~= before.push(
                        LanguageView::empty(file.language@).with_file(file),
                    ));
                }
            },
        }
        Ok(())
    }
}

/// Every record may stand before itself.
pub proof fn lemma_ranks_before_reflexive(a: LanguageStatistics)
    ensures
        ranks_before(a, a),
{
    lemma_lex_le_reflexive(a.language_name@);
}

/// Of two records, one may stand before the other.
pub proof fn lemma_ranks_before_total(a: LanguageStatistics, b: LanguageStatistics)
    ensures
        ranks_before(a, b) || ranks_before(b, a),
{
    lemma_lex_le_total(a.language_name@, b.language_name@);
}

/// What may stand before a record may stand before all that the record may
/// stand before.
pub proof fn lemma_ranks_before_transitive(
    a: LanguageStatistics,
    b: LanguageStatistics,
    c: LanguageStatistics,
)
    requires
        ranks_before(a, b),
        ranks_before(b, c),
    ensures
        ranks_before(a, c),
{
    if a.total_lines == b.total_lines && b.total_lines == c.total_lines {
        lemma_lex_le_transitive(a.language_name@, b.language_name@, c.language_name@);
    }
}

/// Two records of which each may stand before the other have as many lines
/// and the same name: among languages of different names the ranking
/// leaves no choice.
pub proof fn law_ranking_leaves_no_choice(a: LanguageStatistics, b: LanguageStatistics)
    requires
        ranks_before(a, b),
        ranks_before(b, a),
    ensures
        a.total_lines == b.total_lines,
        a.language_name@ == b.language_name@,
{
    lemma_lex_le_antisymmetric(a.language_name@, b.language_name@);
}

/// Whether `first` may stand before `second` in a report.
pub fn ranks_first(first: &LanguageStatistics, second: &LanguageStatistics) -> (before: bool)
    ensures
        before == ranks_before(*first, *second),
{
    if first.total_lines != second.total_lines {
        first.total_lines > second.total_lines
    } else {
        str_le(first.language_name.as_str(), second.language_name.as_str())
    }
}

impl ProjectAnalysis {
    /// What each language reports, those with the most lines first, and among
    /// languages with as many lines those whose name is first in the
    /// dictionary.
    pub fn get_language_statistics(&self) -> (stats: Vec<LanguageStatistics>)
        ensures
            stats@.to_multiset() == self.snapshots().to_multiset(),
            stats@.len() == self.language_analyses@.len(),
            sorted_by(stats@, |a: LanguageStatistics, b: LanguageStatistics| ranks_before(a, b)),
            forall|i: int| 0 <= i < stats@.len() ==> (#[trigger] stats@[i]).ratios_follow_counts(),
    {
        let ghost leq = |a: LanguageStatistics, b: LanguageStatistics| ranks_before(a, b);
        let mut stats: Vec<LanguageStatistics> = Vec::new();
        let mut next: usize = 0;
        proof {
            assert(self.snapshots().take(0) =~= Seq::<LanguageStatistics>::empty());
        }
        while next < self.language_analyses.entries.len()
            invariant
                next <= self.language_analyses.entries@.len(),
                leq == |a: LanguageStatistics, b: LanguageStatistics| ranks_before(a, b),
                stats@.to_multiset() == self.snapshots().take(next as int).to_multiset(),
                stats@.len() == next,
                sorted_by(stats@, leq),
                forall|i: int|
                    0 <= i < stats@.len() ==> (#[trigger] stats@[i]).ratios_follow_counts(),
            decreases self.language_analyses.entries@.len() - next,
        {
            let snapshot = self.language_analyses.entries[next].calculate_statistics();
            let mut at: usize = 0;
            let mut searching = true;
            while searching
                invariant
                    at <= stats@.len(),
                    forall|j: int| 0 <= j < at ==> ranks_before(stats@[j], snapshot),
                    !searching ==> at == stats@.len() || !ranks_before(stats@[at as int], snapshot),
                decreases stats@.len() - at + if searching { 1int } else { 0 },
            {
                if at < stats.len() && ranks_first(&stats[at], &snapshot) {
                    at += 1;
                } else {
                    searching = false;
                }
            }
            let ghost before = stats@;
            stats.insert(at, snapshot);
            proof {
                broadcast use to_multiset_insert, to_multiset_build;

                assert(self.snapshots().take(next + 1) =~= self.snapshots().take(next as int).push(
                    snapshot,
                ));
                assert forall|i: int, j: int| 0 <= i < j < stats@.len() implies #[trigger] leq(
                    stats@[i],
                    stats@[j],
                ) by {
                    if j == at {
                        assert(stats@[i] == before[i]);
                    } else if i == at {
                        assert(stats@[j] == before[j - 1]);
                        lemma_ranks_before_total(before[at as int], snapshot);
                        if j - 1 > at {
                            assert(leq(before[at as int], before[j - 1]));
                            lemma_ranks_before_transitive(
                                snapshot,
                                before[at as int],
                                before[j - 1],
                            );
                        }
                    } else {
                        let oi = if i < at { i } else { i - 1 };
                        let oj = if j < at { j } else { j - 1 };
                        assert(stats@[i] == before[oi]);
                        assert(stats@[j] == before[oj]);
                        assert(leq(before[oi], before[oj]));
                    }
                }
                assert forall|i: int| 0 <= i < stats@.len() implies (
                #[trigger] stats@[i]).ratios_follow_counts() by {
                    if i < at {
                        assert(stats@[i] == before[i]);
                    } else if i > at {
                        assert(stats@[i] == before[i - 1]);
                    }
                }
            }
            next += 1;
        }
        proof {
            assert(self.snapshots().take(next as int) =~= self.snapshots());
        }
        stats
    }

    /// The totals of the project, the number of its languages, and its
    /// primary language: the one that stands first in the report by
    /// language, absent where the project has no language.
    pub fn get_summary(&self) -> (summary: ProjectSummary)
        ensures
            summary.project_name == self.project_name,
            summary.total_files == self.global_metrics.file_count,
            summary.total_lines == self.global_metrics.total_lines,
            summary.total_code_lines == self.global_metrics.code_lines,
            summary.total_comment_lines == self.global_metrics.comment_lines,
            summary.total_blank_lines == self.global_metrics.blank_lines,
            summary.total_size_bytes == self.global_metrics.total_size_bytes,
            summary.language_count == self.language_analyses@.len(),
            summary.primary_language is None <==> self.language_analyses@.len() == 0,
            summary.primary_language matches Some(name) ==> self.is_primary(name@),
            summary.overall_complexity_ratio == Ratio::of(
                self.global_metrics.code_lines,
                self.global_metrics.total_lines,
            ),
            summary.overall_documentation_ratio == Ratio::of(
                self.global_metrics.comment_lines,
                self.global_metrics.code_lines,
            ),
    {
        let stats = self.get_language_statistics();
        let primary_language = if stats.len() > 0 {
            let name = stats[0].language_name.clone();
            proof {
                broadcast use to_multiset_contains;

                let first = stats@[0];
                assert(stats@.to_multiset().count(first) > 0);
                assert(self.snapshots().contains(first));
                let at = choose|at: int|
                    0 <= at < self.snapshots().len() && self.snapshots()[at] == first;
                assert forall|other: int| 0 <= other < self.snapshots().len() implies ranks_before(
                    self.snapshots()[at],
                    #[trigger] self.snapshots()[other],
                ) by {
                    let item = self.snapshots()[other];
                    assert(self.snapshots().to_multiset().count(item) > 0);
                    assert(stats@.contains(item));
                    let k = choose|k: int| 0 <= k < stats@.len() && stats@[k] == item;
                    if k == 0 {
                        lemma_ranks_before_reflexive(first);
                    } else {
                        let leq = |a: LanguageStatistics, b: LanguageStatistics|
                            ranks_before(a, b);
                        assert(leq(stats@[0], stats@[k]));
                    }
                }
                assert(self.is_primary(name@));
            }
            Some(name)
        } else {
            None
        };
        ProjectSummary {
            project_name: self.project_name.clone(),
            total_files: self.global_metrics.file_count,
            total_lines: self.global_metrics.total_lines,
            total_code_lines: self.global_metrics.code_lines,
            total_comment_lines: self.global_metrics.comment_lines,
            total_blank_lines: self.global_metrics.blank_lines,
            total_size_bytes: self.global_metrics.total_size_bytes,
            language_count: self.language_analyses.len(),
            primary_language,
            overall_complexity_ratio: self.global_metrics.complexity_ratio(),
            overall_documentation_ratio: self.global_metrics.documentation_ratio(),
        }
    }
}

} // verus!
