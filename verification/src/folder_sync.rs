//! Pure planning for one-way folder synchronization.
//!
//! The planner never mutates either side and never schedules deletions outside mirror mode. Callers
//! provide safe, relative file paths and metadata collected from the local and remote trees, then
//! explicitly apply the returned actions after showing a dry-run preview.

use vstd::prelude::*;
use vstd::utf8::encode_utf8;

use crate::lexical::{lex_lt, same};
use crate::net::safe::slash;
use crate::ordered_map::{
    keys_of, lemma_lookup_found, lemma_lookup_some, strictly_sorted, OrderedMap,
};
use crate::path_pattern::{matches_path, path_matches};
use crate::pieces::{
    contains_char, drop_end_while, drop_prefixes, drop_while, has_prefix, only, split, split_any,
    split_at_separator, starts_with, texts, trim, trim_end_char, trim_start_char, trim_start_text,
    trimmed, views,
};
use crate::text::{
    any_control, byte_len, chars_of, debug_quoted, has_control, plus, quoted, string_of, utf8_len,
};
use crate::wildcard::{glob_matches, matches_wildcard};

verus! {

pub const DEFAULT_EXCLUSIONS: &'static str = ".git, .DS_Store, *.part, *.tmp";

pub const DEFAULT_MTIME_TOLERANCE_SECONDS: u64 = 2;

pub const MAX_RULES: usize = 128;

pub const MAX_RULE_BYTES: usize = 256;

pub const MAX_RULESET_BYTES: usize = 8192;

#[derive(Debug, Clone, Copy, PartialEq, Eq, Structural)]
pub enum SyncReason {
    Missing,
    DifferentSize,
    DifferentModificationTime,
    ModificationTimeUnavailable,
    DifferentChecksum,
    ChecksumUnavailable,
    TargetOnly,
}

#[derive(Debug, Clone, Copy, PartialEq, Eq, Structural)]
pub enum SyncMode {
    OneWay,
    Mirror,
}

impl Default for SyncMode {
    fn default() -> (r: Self)
        ensures
            r == SyncMode::OneWay,
    {
        SyncMode::OneWay
    }
}

#[derive(Debug, Clone, Copy, PartialEq, Eq, Structural)]
pub enum SyncComparison {
    SizeOnly,
    SizeAndModificationTime,
    Checksum,
}

impl Default for SyncComparison {
    fn default() -> (r: Self)
        ensures
            r == SyncComparison::SizeAndModificationTime,
    {
        SyncComparison::SizeAndModificationTime
    }
}

#[derive(Debug, Clone, Copy, PartialEq, Eq, Structural)]
pub struct SyncOptions {
    pub mode: SyncMode,
    pub comparison: SyncComparison,
    pub mtime_tolerance_seconds: u64,
    /// Adjustment applied before source timestamp comparison. A server known to report one hour
    /// ahead is normalized with `-3600` when it is the source.
    pub source_time_adjustment_seconds: i64,
    /// Equivalent normalization for the target side.
    pub target_time_adjustment_seconds: i64,
}

impl Default for SyncOptions {
    fn default() -> (r: Self)
        ensures
            r == (SyncOptions {
                mode: SyncMode::OneWay,
                comparison: SyncComparison::SizeAndModificationTime,
                mtime_tolerance_seconds: DEFAULT_MTIME_TOLERANCE_SECONDS,
                source_time_adjustment_seconds: 0,
                target_time_adjustment_seconds: 0,
            }),
    {
        SyncOptions {
            mode: SyncMode::OneWay,
            comparison: SyncComparison::SizeAndModificationTime,
            mtime_tolerance_seconds: DEFAULT_MTIME_TOLERANCE_SECONDS,
            source_time_adjustment_seconds: 0,
            target_time_adjustment_seconds: 0,
        }
    }
}

#[derive(Debug, Clone, Copy, PartialEq, Eq)]
pub struct SyncFileMetadata {
    pub bytes: u64,
    pub modified: Option<i64>,
    pub sha256: Option<[u8; 32]>,
}

impl Default for SyncFileMetadata {
    fn default() -> (r: Self)
        ensures
            r == (SyncFileMetadata { bytes: 0, modified: None, sha256: None }),
    {
        SyncFileMetadata { bytes: 0, modified: None, sha256: None }
    }
}

#[derive(Debug, PartialEq, Eq)]
pub struct SyncAction {
    pub relative_path: String,
    pub bytes: u64,
    pub reason: SyncReason,
}

impl Clone for SyncAction {
    fn clone(&self) -> (r: Self)
        ensures
            r == *self,
    {
        SyncAction {
            relative_path: self.relative_path.clone(),
            bytes: self.bytes,
            reason: self.reason,
        }
    }
}

/// What an action says.
pub ghost struct ActionView {
    pub path: Seq<char>,
    pub bytes: u64,
    pub reason: SyncReason,
}

impl View for SyncAction {
    type V = ActionView;

    open spec fn view(&self) -> ActionView {
        ActionView { path: self.relative_path@, bytes: self.bytes, reason: self.reason }
    }
}

pub open spec fn action_views(v: Seq<SyncAction>) -> Seq<ActionView> {
    v.map_values(|a: SyncAction| a@)
}

#[derive(Debug, PartialEq, Eq)]
pub struct SyncPreview {
    pub actions: Vec<SyncAction>,
    /// Target-only files scheduled for deletion only in explicit mirror mode.
    pub deletions: Vec<SyncAction>,
    pub unchanged: usize,
    /// Files found only on the target. They are deliberately retained outside mirror mode.
    pub target_only: usize,
    pub excluded: usize,
}

// --- exclusion rules ---------------------------------------------------------------------------

/// The characters that end a rule.
pub open spec fn rule_separators() -> Seq<char> {
    seq![',', ';', '\n', '\r']
}

/// The rule that a piece of the rule set stands for; empty for none.
pub open spec fn rule_of(raw: Seq<char>) -> Seq<char> {
    drop_end_while(drop_prefixes(trimmed(raw), seq!['.', '/']), only('/'))
}

/// A rule may not be long, absolute, hold `..` as a component, or hold a control character.
pub open spec fn rule_allowed(rule: Seq<char>) -> bool {
    &&& utf8_len(rule) <= MAX_RULE_BYTES
    &&& !(rule.len() > 0 && rule[0] == '/')
    &&& !split_any(rule, slash()).contains(seq!['.', '.'])
    &&& !has_control(rule)
}

/// The rules that the pieces add to those already there, or the message of the first refusal.
pub open spec fn rules_from(pieces: Seq<Seq<char>>, rules: Seq<Seq<char>>) -> Result<
    Seq<Seq<char>>,
    Seq<char>,
>
    decreases pieces.len(),
{
    if pieces.len() == 0 {
        Ok(rules)
    } else {
        let rule = rule_of(pieces[0]);
        if rule.len() == 0 {
            rules_from(pieces.skip(1), rules)
        } else if !rule_allowed(rule) {
            Err("invalid exclude rule: "@ + debug_quoted(pieces[0]))
        } else {
            let next = if rules.contains(rule) {
                rules
            } else {
                rules.push(rule)
            };
            if next.len() > MAX_RULES {
                Err("at most 128 exclude rules are allowed"@)
            } else {
                rules_from(pieces.skip(1), next)
            }
        }
    }
}

/// The rule set that a text denotes.
pub open spec fn exclusions(input: Seq<char>) -> Result<Seq<Seq<char>>, Seq<char>> {
    if utf8_len(input) > MAX_RULESET_BYTES {
        Err("exclude rules exceed 8192 bytes"@)
    } else {
        rules_from(split_any(input, rule_separators()), Seq::empty())
    }
}

#[verifier::loop_isolation(false)]
fn allowed(rule: &[char], rule_text: &str) -> (r: bool)
    requires
        rule@ == rule_text@,
    ensures
        r == rule_allowed(rule@),
{
    if byte_len(rule_text) > MAX_RULE_BYTES || (rule.len() > 0 && rule[0] == '/') || any_control(
        rule,
    ) {
        return false;
    }
    let sep: [char; 1] = ['/'];
    let up: [char; 2] = ['.', '.'];
    let parts: Vec<Vec<char>> = split(rule, sep.as_slice());
    assert(sep@ =~= slash());
    assert(up@ =~= seq!['.', '.']);
    let mut i: usize = 0;
    while i < parts.len()
        invariant
            i <= parts@.len(),
            up@ == seq!['.', '.'],
            forall|j: int| 0 <= j < i ==> (#[trigger] parts@[j])@ != up@,
        decreases parts@.len() - i,
    {
        if same(&parts[i], up.as_slice()) {
            assert(views(parts@)[i as int] == up@);
            return false;
        }
        i += 1;
    }
    assert(!split_any(rule@, slash()).contains(seq!['.', '.'])) by {
        if views(parts@).contains(up@) {
            let j = choose|j: int| 0 <= j < views(parts@).len() && views(parts@)[j] == up@;
            assert(parts@[j]@ == up@);
        }
    }
    true
}

#[verifier::loop_isolation(false)]
fn holds(rules: &Vec<String>, rule: &str) -> (r: bool)
    ensures
        r == texts(rules@).contains(rule@),
{
    let wanted: String = rule.to_owned();
    let mut i: usize = 0;
    while i < rules.len()
        invariant
            i <= rules@.len(),
            wanted@ == rule@,
            forall|j: int| 0 <= j < i ==> (#[trigger] rules@[j])@ != rule@,
        decreases rules@.len() - i,
    {
        if rules[i] == wanted {
            assert(texts(rules@)[i as int] == rule@);
            return true;
        }
        i += 1;
    }
    assert(!texts(rules@).contains(rule@)) by {
        if texts(rules@).contains(rule@) {
            let j = choose|j: int| 0 <= j < texts(rules@).len() && texts(rules@)[j] == rule@;
            assert(rules@[j]@ == rule@);
        }
    }
    false
}

/// Read a rule set: rules between commas, semicolons and line ends, each rule once.
pub fn parse_exclusions(input: &str) -> (r: Result<Vec<String>, String>)
    ensures
        r is Ok <==> exclusions(input@) is Ok,
        r matches Ok(rules) ==> exclusions(input@) == Ok::<Seq<Seq<char>>, Seq<char>>(
            texts(rules@),
        ),
        r matches Err(e) ==> exclusions(input@) == Err::<Seq<Seq<char>>, Seq<char>>(e@),
{
    if byte_len(input) > MAX_RULESET_BYTES {
        return Err("exclude rules exceed 8192 bytes".to_owned());
    }
    let seps: [char; 4] = [',', ';', '\n', '\r'];
    let dot_slash: [char; 2] = ['.', '/'];
    assert(seps@ =~= rule_separators());
    assert(dot_slash@ =~= seq!['.', '/']);
    let chars: Vec<char> = chars_of(input);
    let pieces: Vec<Vec<char>> = split(&chars, seps.as_slice());
    let ghost all = views(pieces@);
    let mut rules: Vec<String> = Vec::new();
    let mut i: usize = 0;
    assert(texts(rules@) =~= Seq::<Seq<char>>::empty());
    assert(all.skip(0) =~= all);
    while i < pieces.len()
        invariant
            i <= pieces@.len(),
            all == views(pieces@),
            dot_slash@ == seq!['.', '/'],
            rules@.len() <= MAX_RULES,
            exclusions(input@) == rules_from(all.skip(i as int), texts(rules@)),
        decreases pieces@.len() - i,
    {
        let ghost rest = all.skip(i as int);
        assert(rest[0] == pieces@[i as int]@);
        assert(rest.skip(1) =~= all.skip(i + 1));
        let rule: &[char] = trim_end_char(
            trim_start_text(trim(&pieces[i]), dot_slash.as_slice()),
            '/',
        );
        assert(rule@ == rule_of(rest[0]));
        if rule.len() > 0 {
            let text: String = string_of(rule);
            if !allowed(rule, text.as_str()) {
                let raw: String = string_of(&pieces[i]);
                return Err(plus("invalid exclude rule: ".to_owned(), quoted(raw.as_str()).as_str()));
            }
            let ghost before = rules@;
            if !holds(&rules, text.as_str()) {
                rules.push(text);
                assert(texts(rules@) =~= texts(before).push(rule@));
            }
            if rules.len() > MAX_RULES {
                return Err("at most 128 exclude rules are allowed".to_owned());
            }
        }
        i += 1;
    }
    assert(all.skip(i as int).len() == 0);
    Ok(rules)
}

/// A rule with a `/` describes a complete path, in which `*` and `?` stay within one component and
/// `**` does not, or it is the path of a directory above. A rule without one describes any component
/// of the path, and with a directory everything below it.
pub open spec fn rule_excludes(rule: Seq<char>, path: Seq<char>) -> bool {
    if rule.contains('/') {
        ||| matches_path(encode_utf8(rule), encode_utf8(path))
        ||| has_prefix(path, rule) && path.len() > rule.len() && path[rule.len() as int] == '/'
    } else {
        exists|i: int|
            0 <= i < split_any(path, slash()).len() && matches_wildcard(
                encode_utf8(rule),
                encode_utf8(#[trigger] split_any(path, slash())[i]),
            )
    }
}

/// The path without the slashes at its two ends.
pub open spec fn bare_path(path: Seq<char>) -> Seq<char> {
    drop_end_while(drop_while(path, only('/')), only('/'))
}

pub open spec fn excluded(path: Seq<char>, rules: Seq<Seq<char>>) -> bool {
    &&& bare_path(path).len() > 0
    &&& exists|i: int| 0 <= i < rules.len() && rule_excludes(#[trigger] rules[i], bare_path(path))
}

#[verifier::loop_isolation(false)]
fn rule_hits(rule: &str, path: &[char]) -> (r: bool)
    ensures
        r == rule_excludes(rule@, path@),
{
    let rule_chars: Vec<char> = chars_of(rule);
    if contains_char(&rule_chars, '/') {
        let whole: String = string_of(path);
        path_matches(rule.as_bytes(), whole.as_str().as_bytes()) || (starts_with(path, &rule_chars)
            && path.len() > rule_chars.len() && path[rule_chars.len()] == '/')
    } else {
        let sep: [char; 1] = ['/'];
        assert(sep@ =~= slash());
        let parts: Vec<Vec<char>> = split(path, sep.as_slice());
        let ghost all = split_any(path@, slash());
        let mut i: usize = 0;
        while i < parts.len()
            invariant
                i <= parts@.len(),
                all == views(parts@),
                forall|j: int|
                    0 <= j < i ==> !matches_wildcard(
                        encode_utf8(rule@),
                        encode_utf8(#[trigger] all[j]),
                    ),
            decreases parts@.len() - i,
        {
            let part: String = string_of(&parts[i]);
            assert(all[i as int] == part@);
            if glob_matches(rule.as_bytes(), part.as_str().as_bytes()) {
                return true;
            }
            i += 1;
        }
        false
    }
}

/// Match either a complete relative path (rules containing `/`) or any path component. `*` and `?`
/// have their conventional single-component meanings; `**` goes across components. A plain `.git`
/// therefore excludes the directory and everything below it without requiring a recursive glob.
#[verifier::loop_isolation(false)]
pub fn is_excluded(relative_path: &str, rules: &[String]) -> (r: bool)
    ensures
        r == excluded(relative_path@, texts(rules@)),
{
    let chars: Vec<char> = chars_of(relative_path);
    let path: &[char] = trim_end_char(trim_start_char(&chars, '/'), '/');
    if path.len() == 0 {
        return false;
    }
    let mut i: usize = 0;
    while i < rules.len()
        invariant
            i <= rules@.len(),
            path@ == bare_path(relative_path@),
            forall|j: int| 0 <= j < i ==> !rule_excludes(#[trigger] texts(rules@)[j], path@),
        decreases rules@.len() - i,
    {
        assert(texts(rules@)[i as int] == rules@[i as int]@);
        if rule_hits(rules[i].as_str(), path) {
            return true;
        }
        i += 1;
    }
    false
}

// --- comparison --------------------------------------------------------------------------------

pub open spec fn saturating(n: int) -> int {
    if n < i64::MIN {
        i64::MIN as int
    } else if n > i64::MAX {
        i64::MAX as int
    } else {
        n
    }
}

/// Why a file that is on both sides with the same size is to be copied, if it is.
///
/// The selected source is authoritative: with timestamps, only a materially newer source is copied.
pub open spec fn same_size_reason(
    source: SyncFileMetadata,
    target: SyncFileMetadata,
    options: SyncOptions,
) -> Option<SyncReason> {
    match options.comparison {
        SyncComparison::SizeOnly => None,
        SyncComparison::SizeAndModificationTime => match (source.modified, target.modified) {
            (Some(s), Some(t)) => if saturating(s + options.source_time_adjustment_seconds)
                - saturating(t + options.target_time_adjustment_seconds)
                > options.mtime_tolerance_seconds {
                Some(SyncReason::DifferentModificationTime)
            } else {
                None
            },
            _ => Some(SyncReason::ModificationTimeUnavailable),
        },
        SyncComparison::Checksum => match (source.sha256, target.sha256) {
            (Some(s), Some(t)) => if s@ == t@ {
                None
            } else {
                Some(SyncReason::DifferentChecksum)
            },
            _ => Some(SyncReason::ChecksumUnavailable),
        },
    }
}

/// Why a source file is to be copied over what the target has at its path, if it is.
pub open spec fn copy_reason(
    source: SyncFileMetadata,
    target: Option<SyncFileMetadata>,
    options: SyncOptions,
) -> Option<SyncReason> {
    match target {
        None => Some(SyncReason::Missing),
        Some(t) => if t.bytes != source.bytes {
            Some(SyncReason::DifferentSize)
        } else {
            same_size_reason(source, t, options)
        },
    }
}

fn saturating_sum(a: i64, b: i64) -> (r: i64)
    ensures
        r == saturating(a + b),
{
    match a.checked_add(b) {
        Some(n) => n,
        None => if a < 0 {
            i64::MIN
        } else {
            i64::MAX
        },
    }
}

#[verifier::loop_isolation(false)]
fn same_digest(a: &[u8; 32], b: &[u8; 32]) -> (r: bool)
    ensures
        r == (a@ == b@),
{
    let mut i: usize = 0;
    while i < 32
        invariant
            i <= 32,
            forall|j: int| 0 <= j < i ==> a@[j] == b@[j],
        decreases 32 - i,
    {
        if a[i] != b[i] {
            return false;
        }
        i += 1;
    }
    assert(a@ =~= b@);
    true
}

pub fn comparison_reason(
    source: &SyncFileMetadata,
    target: &SyncFileMetadata,
    options: SyncOptions,
) -> (r: Option<SyncReason>)
    ensures
        r == same_size_reason(*source, *target, options),
{
    match options.comparison {
        SyncComparison::SizeOnly => None,
        SyncComparison::SizeAndModificationTime => match (source.modified, target.modified) {
            (Some(s), Some(t)) => {
                let s: i64 = saturating_sum(s, options.source_time_adjustment_seconds);
                let t: i64 = saturating_sum(t, options.target_time_adjustment_seconds);
                if s > t && (s as i128 - t as i128) > options.mtime_tolerance_seconds as i128 {
                    Some(SyncReason::DifferentModificationTime)
                } else {
                    None
                }
            },
            _ => Some(SyncReason::ModificationTimeUnavailable),
        },
        SyncComparison::Checksum => match (&source.sha256, &target.sha256) {
            (Some(s), Some(t)) => if same_digest(s, t) {
                None
            } else {
                Some(SyncReason::DifferentChecksum)
            },
            _ => Some(SyncReason::ChecksumUnavailable),
        },
    }
}

// --- the preview -------------------------------------------------------------------------------

pub type Snapshot = OrderedMap<SyncFileMetadata>;

/// The copies that the first entries of the source ask for, in their order.
pub open spec fn planned_copies(
    source: Seq<(String, SyncFileMetadata)>,
    target: Snapshot,
    rules: Seq<Seq<char>>,
    options: SyncOptions,
) -> Seq<ActionView>
    decreases source.len(),
{
    if source.len() == 0 {
        Seq::empty()
    } else {
        let before = planned_copies(source.drop_last(), target, rules, options);
        let (path, metadata) = source.last();
        if excluded(path@, rules) {
            before
        } else {
            match copy_reason(metadata, target.spec_get(path@), options) {
                Some(reason) => before.push(
                    ActionView { path: path@, bytes: metadata.bytes, reason },
                ),
                None => before,
            }
        }
    }
}

/// How many of the entries are neither excluded nor copied.
pub open spec fn unchanged_count(
    source: Seq<(String, SyncFileMetadata)>,
    target: Snapshot,
    rules: Seq<Seq<char>>,
    options: SyncOptions,
) -> nat
    decreases source.len(),
{
    if source.len() == 0 {
        0
    } else {
        let (path, metadata) = source.last();
        unchanged_count(source.drop_last(), target, rules, options) + if !excluded(path@, rules)
            && copy_reason(metadata, target.spec_get(path@), options) is None {
            1nat
        } else {
            0nat
        }
    }
}

pub open spec fn excluded_count(
    entries: Seq<(String, SyncFileMetadata)>,
    rules: Seq<Seq<char>>,
) -> nat
    decreases entries.len(),
{
    if entries.len() == 0 {
        0
    } else {
        excluded_count(entries.drop_last(), rules) + if excluded(entries.last().0@, rules) {
            1nat
        } else {
            0nat
        }
    }
}

/// The files that only the target has, in the order of their paths.
pub open spec fn only_on_target(
    target: Seq<(String, SyncFileMetadata)>,
    source: Snapshot,
    rules: Seq<Seq<char>>,
) -> Seq<ActionView>
    decreases target.len(),
{
    if target.len() == 0 {
        Seq::empty()
    } else {
        let before = only_on_target(target.drop_last(), source, rules);
        let (path, metadata) = target.last();
        if !excluded(path@, rules) && source.spec_get(path@) is None {
            before.push(
                ActionView { path: path@, bytes: metadata.bytes, reason: SyncReason::TargetOnly },
            )
        } else {
            before
        }
    }
}

/// Deletions are planned in mirror mode alone.
pub open spec fn planned_deletions(
    target: Seq<(String, SyncFileMetadata)>,
    source: Snapshot,
    rules: Seq<Seq<char>>,
    options: SyncOptions,
) -> Seq<ActionView> {
    if options.mode == SyncMode::Mirror {
        only_on_target(target, source, rules)
    } else {
        Seq::empty()
    }
}

/// `preview` is what a dry run shows of a source and a target.
pub open spec fn previews(
    preview: SyncPreview,
    source: Snapshot,
    target: Snapshot,
    rules: Seq<Seq<char>>,
    options: SyncOptions,
) -> bool {
    &&& action_views(preview.actions@) == planned_copies(source.seq(), target, rules, options)
    &&& action_views(preview.deletions@) == planned_deletions(target.seq(), source, rules, options)
    &&& preview.unchanged == unchanged_count(source.seq(), target, rules, options)
    &&& preview.target_only == only_on_target(target.seq(), source, rules).len()
    &&& preview.excluded == excluded_count(source.seq(), rules) + excluded_count(
        target.seq(),
        rules,
    )
}

/// What to copy to make the target follow the source, and, in mirror mode, what to delete.
pub fn build_preview(
    source: &Snapshot,
    target: &Snapshot,
    rules: &[String],
    options: SyncOptions,
) -> (r: SyncPreview)
    requires
        source.wf(),
        target.wf(),
        source.seq().len() + target.seq().len() <= usize::MAX,
    ensures
        previews(r, *source, *target, texts(rules@), options),
{
    let ghost ruleset = texts(rules@);
    let mut actions: Vec<SyncAction> = Vec::new();
    let mut deletions: Vec<SyncAction> = Vec::new();
    let mut unchanged: usize = 0;
    let mut target_only: usize = 0;
    let mut excluded_files: usize = 0;
    let mut i: usize = 0;
    assert(action_views(actions@) =~= Seq::<ActionView>::empty());
    while i < source.entries.len()
        invariant
            i <= source.seq().len(),
            target.wf(),
            ruleset == texts(rules@),
            action_views(actions@) == planned_copies(
                source.seq().take(i as int),
                *target,
                ruleset,
                options,
            ),
            unchanged == unchanged_count(source.seq().take(i as int), *target, ruleset, options),
            unchanged <= i,
            excluded_files == excluded_count(source.seq().take(i as int), ruleset),
            excluded_files <= i,
        decreases source.seq().len() - i,
    {
        let ghost next = source.seq().take(i + 1);
        assert(next.drop_last() =~= source.seq().take(i as int));
        assert(next.last() == source.seq()[i as int]);
        let path: &str = source.entries[i].0.as_str();
        let metadata: SyncFileMetadata = source.entries[i].1;
        if is_excluded(path, rules) {
            excluded_files += 1;
        } else {
            let reason: Option<SyncReason> = match target.get(path) {
                None => Some(SyncReason::Missing),
                Some(found) => if found.bytes != metadata.bytes {
                    Some(SyncReason::DifferentSize)
                } else {
                    comparison_reason(&metadata, found, options)
                },
            };
            match reason {
                Some(reason) => {
                    let ghost before = actions@;
                    actions.push(
                        SyncAction {
                            relative_path: path.to_owned(),
                            bytes: metadata.bytes,
                            reason,
                        },
                    );
                    assert(action_views(actions@) =~= action_views(before).push(actions@.last()@));
                },
                None => {
                    unchanged += 1;
                },
            }
        }
        i += 1;
    }
    assert(source.seq().take(i as int) =~= source.seq());
    let ghost excluded_source = excluded_files as nat;
    let mut k: usize = 0;
    assert(action_views(deletions@) =~= Seq::<ActionView>::empty());
    while k < target.entries.len()
        invariant
            k <= target.seq().len(),
            source.wf(),
            source.seq().len() + target.seq().len() <= usize::MAX,
            ruleset == texts(rules@),
            excluded_source <= source.seq().len(),
            excluded_files == excluded_source + excluded_count(target.seq().take(k as int), ruleset),
            excluded_files <= source.seq().len() + k,
            target_only == only_on_target(target.seq().take(k as int), *source, ruleset).len(),
            target_only <= k,
            action_views(deletions@) == (if options.mode == SyncMode::Mirror {
                only_on_target(target.seq().take(k as int), *source, ruleset)
            } else {
                Seq::<ActionView>::empty()
            }),
        decreases target.seq().len() - k,
    {
        let ghost next = target.seq().take(k + 1);
        assert(next.drop_last() =~= target.seq().take(k as int));
        assert(next.last() == target.seq()[k as int]);
        let path: &str = target.entries[k].0.as_str();
        if is_excluded(path, rules) {
            excluded_files += 1;
        } else if !source.contains_key(path) {
            target_only += 1;
            if options.mode == SyncMode::Mirror {
                let ghost before = deletions@;
                deletions.push(
                    SyncAction {
                        relative_path: path.to_owned(),
                        bytes: target.entries[k].1.bytes,
                        reason: SyncReason::TargetOnly,
                    },
                );
                assert(action_views(deletions@) =~= action_views(before).push(deletions@.last()@));
            }
        }
        k += 1;
    }
    assert(target.seq().take(k as int) =~= target.seq());
    SyncPreview { actions, deletions, unchanged, target_only, excluded: excluded_files }
}

// --- laws --------------------------------------------------------------------------------------

/// One-way synchronization never deletes anything.
pub proof fn one_way_never_deletes(
    target: Seq<(String, SyncFileMetadata)>,
    source: Snapshot,
    rules: Seq<Seq<char>>,
    options: SyncOptions,
)
    requires
        options.mode == SyncMode::OneWay,
    ensures
        planned_deletions(target, source, rules, options).len() == 0,
{
}

/// Every source file is copied, unchanged or excluded, and only one of the three.
pub proof fn every_source_file_is_accounted_for(
    source: Seq<(String, SyncFileMetadata)>,
    target: Snapshot,
    rules: Seq<Seq<char>>,
    options: SyncOptions,
)
    ensures
        planned_copies(source, target, rules, options).len() + unchanged_count(
            source,
            target,
            rules,
            options,
        ) + excluded_count(source, rules) == source.len(),
    decreases source.len(),
{
    if source.len() > 0 {
        every_source_file_is_accounted_for(source.drop_last(), target, rules, options);
    }
}

/// Every planned copy names a source file that no rule excludes, with its size and the reason.
pub proof fn copies_name_source_files(
    source: Snapshot,
    target: Snapshot,
    rules: Seq<Seq<char>>,
    options: SyncOptions,
    i: int,
)
    requires
        source.wf(),
        0 <= i < planned_copies(source.seq(), target, rules, options).len(),
    ensures
        ({
            let copy = planned_copies(source.seq(), target, rules, options)[i];
            &&& !excluded(copy.path, rules)
            &&& source.spec_get(copy.path) matches Some(metadata)
            &&& copy.bytes == metadata.bytes
            &&& copy_reason(metadata, target.spec_get(copy.path), options) == Some(copy.reason)
        }),
{
    let n = lemma_copy_origin(source.seq(), target, rules, options, i);
    lemma_lookup_found(source.seq(), n);
}

proof fn lemma_copy_origin(
    source: Seq<(String, SyncFileMetadata)>,
    target: Snapshot,
    rules: Seq<Seq<char>>,
    options: SyncOptions,
    i: int,
) -> (n: int)
    requires
        0 <= i < planned_copies(source, target, rules, options).len(),
    ensures
        0 <= n < source.len(),
        ({
            let copy = planned_copies(source, target, rules, options)[i];
            &&& copy.path == source[n].0@
            &&& copy.bytes == source[n].1.bytes
            &&& !excluded(copy.path, rules)
            &&& copy_reason(source[n].1, target.spec_get(copy.path), options) == Some(copy.reason)
        }),
    decreases source.len(),
{
    let before = planned_copies(source.drop_last(), target, rules, options);
    if i < before.len() {
        lemma_copy_origin(source.drop_last(), target, rules, options, i)
    } else {
        source.len() - 1
    }
}

/// Every planned deletion names a target file that the source lacks and that no rule excludes.
pub proof fn deletions_name_target_only_files(
    target: Snapshot,
    source: Snapshot,
    rules: Seq<Seq<char>>,
    options: SyncOptions,
    i: int,
)
    requires
        target.wf(),
        0 <= i < planned_deletions(target.seq(), source, rules, options).len(),
    ensures
        ({
            let deletion = planned_deletions(target.seq(), source, rules, options)[i];
            &&& !excluded(deletion.path, rules)
            &&& source.spec_get(deletion.path) is None
            &&& target.spec_get(deletion.path) matches Some(metadata)
            &&& deletion.bytes == metadata.bytes
            &&& deletion.reason == SyncReason::TargetOnly
        }),
{
    let n = lemma_deletion_origin(target.seq(), source, rules, i);
    lemma_lookup_found(target.seq(), n);
}

proof fn lemma_deletion_origin(
    target: Seq<(String, SyncFileMetadata)>,
    source: Snapshot,
    rules: Seq<Seq<char>>,
    i: int,
) -> (n: int)
    requires
        0 <= i < only_on_target(target, source, rules).len(),
    ensures
        0 <= n < target.len(),
        ({
            let deletion = only_on_target(target, source, rules)[i];
            &&& deletion.path == target[n].0@
            &&& deletion.bytes == target[n].1.bytes
            &&& deletion.reason == SyncReason::TargetOnly
            &&& !excluded(deletion.path, rules)
            &&& source.spec_get(deletion.path) is None
        }),
    decreases target.len(),
{
    let before = only_on_target(target.drop_last(), source, rules);
    if i < before.len() {
        lemma_deletion_origin(target.drop_last(), source, rules, i)
    } else {
        target.len() - 1
    }
}

/// No path is both copied and deleted by one plan.
pub proof fn no_path_is_copied_and_deleted(
    source: Snapshot,
    target: Snapshot,
    rules: Seq<Seq<char>>,
    options: SyncOptions,
    i: int,
    j: int,
)
    requires
        source.wf(),
        target.wf(),
        0 <= i < planned_copies(source.seq(), target, rules, options).len(),
        0 <= j < planned_deletions(target.seq(), source, rules, options).len(),
    ensures
        planned_copies(source.seq(), target, rules, options)[i].path != planned_deletions(
            target.seq(),
            source,
            rules,
            options,
        )[j].path,
{
    copies_name_source_files(source, target, rules, options, i);
    deletions_name_target_only_files(target, source, rules, options, j);
}

/// The files that only the target has come in the order of their paths, each of them once, and none
/// is left out.
proof fn lemma_only_on_target(
    target: Seq<(String, SyncFileMetadata)>,
    source: Snapshot,
    rules: Seq<Seq<char>>,
)
    requires
        strictly_sorted(keys_of(target)),
    ensures
        ({
            let found = only_on_target(target, source, rules);
            &&& forall|i: int, j: int|
                0 <= i < j < found.len() ==> lex_lt(
                    (#[trigger] found[i]).path,
                    (#[trigger] found[j]).path,
                )
            &&& forall|n: int|
                0 <= n < target.len() && !excluded((#[trigger] target[n]).0@, rules)
                    && source.spec_get(target[n].0@) is None ==> exists|i: int|
                    0 <= i < found.len() && (#[trigger] found[i]).path == target[n].0@
        }),
    decreases target.len(),
{
    if target.len() > 0 {
        let front = target.drop_last();
        let keys = keys_of(target);
        assert(keys_of(front) =~= keys.drop_last());
        lemma_only_on_target(front, source, rules);
        let before = only_on_target(front, source, rules);
        let found = only_on_target(target, source, rules);
        let last = target.len() - 1;
        assert forall|i: int, j: int| 0 <= i < j < found.len() implies lex_lt(
            (#[trigger] found[i]).path,
            (#[trigger] found[j]).path,
        ) by {
            assert(found[i] == before[i]);
            if j == before.len() {
                let n = lemma_deletion_origin(front, source, rules, i);
                assert(keys[n] == front[n].0@);
                assert(lex_lt(keys[n], keys[last]));
            } else {
                assert(found[j] == before[j]);
            }
        }
        assert forall|n: int|
            0 <= n < target.len() && !excluded((#[trigger] target[n]).0@, rules) && source.spec_get(
                target[n].0@,
            ) is None implies exists|i: int|
            0 <= i < found.len() && (#[trigger] found[i]).path == target[n].0@ by {
            if n < last {
                assert(front[n] == target[n]);
                let i = choose|i: int|
                    0 <= i < before.len() && (#[trigger] before[i]).path == front[n].0@;
                assert(found[i] == before[i]);
            } else {
                assert(found[found.len() - 1].path == target[n].0@);
            }
        }
    }
}

/// A one-way and a mirror preview of the same sides differ in the deletions alone: one has none, the
/// other exactly the files that only the target has and no rule excludes, by path, as many as both
/// count.
pub proof fn modes_differ_in_the_deletions_alone(
    source: Snapshot,
    target: Snapshot,
    rules: Seq<Seq<char>>,
    options: SyncOptions,
    one_way: SyncPreview,
    mirror: SyncPreview,
)
    requires
        target.wf(),
        previews(
            one_way,
            source,
            target,
            rules,
            (SyncOptions { mode: SyncMode::OneWay, ..options }),
        ),
        previews(
            mirror,
            source,
            target,
            rules,
            (SyncOptions { mode: SyncMode::Mirror, ..options }),
        ),
    ensures
        action_views(one_way.actions@) == action_views(mirror.actions@),
        one_way.unchanged == mirror.unchanged,
        one_way.target_only == mirror.target_only,
        one_way.excluded == mirror.excluded,
        one_way.deletions@.len() == 0,
        mirror.deletions@.len() == mirror.target_only,
        forall|i: int, j: int|
            0 <= i < j < mirror.deletions@.len() ==> lex_lt(
                (#[trigger] mirror.deletions@[i])@.path,
                (#[trigger] mirror.deletions@[j])@.path,
            ),
        forall|i: int|
            0 <= i < mirror.deletions@.len() ==> {
                let deletion = (#[trigger] mirror.deletions@[i])@;
                &&& !excluded(deletion.path, rules)
                &&& source.spec_get(deletion.path) is None
                &&& target.spec_get(deletion.path) matches Some(metadata)
                &&& deletion.bytes == metadata.bytes
                &&& deletion.reason == SyncReason::TargetOnly
            },
        forall|path: Seq<char>|
            (#[trigger] target.spec_get(path)) is Some && source.spec_get(path) is None
                && !excluded(path, rules) ==> exists|i: int|
                0 <= i < mirror.deletions@.len() && (#[trigger] mirror.deletions@[i])@.path == path,
{
    let one = SyncOptions { mode: SyncMode::OneWay, ..options };
    let two = SyncOptions { mode: SyncMode::Mirror, ..options };
    lemma_mode_changes_no_copy(source.seq(), target, rules, one, two);
    let found = only_on_target(target.seq(), source, rules);
    lemma_only_on_target(target.seq(), source, rules);
    assert(action_views(one_way.deletions@).len() == one_way.deletions@.len());
    assert(action_views(mirror.deletions@) == found);
    assert forall|i: int, j: int| 0 <= i < j < mirror.deletions@.len() implies lex_lt(
        (#[trigger] mirror.deletions@[i])@.path,
        (#[trigger] mirror.deletions@[j])@.path,
    ) by {
        assert(found[i] == mirror.deletions@[i]@);
        assert(found[j] == mirror.deletions@[j]@);
    }
    assert forall|i: int| 0 <= i < mirror.deletions@.len() implies {
        let deletion = (#[trigger] mirror.deletions@[i])@;
        &&& !excluded(deletion.path, rules)
        &&& source.spec_get(deletion.path) is None
        &&& target.spec_get(deletion.path) matches Some(metadata)
        &&& deletion.bytes == metadata.bytes
        &&& deletion.reason == SyncReason::TargetOnly
    } by {
        assert(found[i] == mirror.deletions@[i]@);
        deletions_name_target_only_files(target, source, rules, two, i);
    }
    assert forall|path: Seq<char>|
        (#[trigger] target.spec_get(path)) is Some && source.spec_get(path) is None && !excluded(
            path,
            rules,
        ) implies exists|i: int|
        0 <= i < mirror.deletions@.len() && (#[trigger] mirror.deletions@[i])@.path == path by {
        let n = lemma_lookup_some(target.seq(), path);
        assert(target.seq()[n].0@ == path);
        let i = choose|i: int| 0 <= i < found.len() && (#[trigger] found[i]).path == path;
        assert(found[i] == mirror.deletions@[i]@);
    }
}

proof fn lemma_mode_changes_no_copy(
    source: Seq<(String, SyncFileMetadata)>,
    target: Snapshot,
    rules: Seq<Seq<char>>,
    a: SyncOptions,
    b: SyncOptions,
)
    requires
        b == (SyncOptions { mode: b.mode, ..a }),
    ensures
        planned_copies(source, target, rules, a) == planned_copies(source, target, rules, b),
        unchanged_count(source, target, rules, a) == unchanged_count(source, target, rules, b),
    decreases source.len(),
{
    if source.len() > 0 {
        lemma_mode_changes_no_copy(source.drop_last(), target, rules, a, b);
    }
}

/// A target file of the same size that is not older than the source is never copied over by time,
/// so that a copy whose timestamp could not be preserved does not start an endless loop.
pub proof fn newer_target_is_not_copied(
    source: SyncFileMetadata,
    target: SyncFileMetadata,
    options: SyncOptions,
)
    requires
        options.comparison == SyncComparison::SizeAndModificationTime,
        source.bytes == target.bytes,
        source.modified is Some,
        target.modified is Some,
        saturating(source.modified->0 + options.source_time_adjustment_seconds) <= saturating(
            target.modified->0 + options.target_time_adjustment_seconds,
        ),
    ensures
        copy_reason(source, Some(target), options) is None,
{
}

/// What cannot be compared is copied: a missing timestamp or digest never counts as unchanged.
pub proof fn doubt_leads_to_a_copy(
    source: SyncFileMetadata,
    target: SyncFileMetadata,
    options: SyncOptions,
)
    requires
        options.comparison == SyncComparison::SizeAndModificationTime ==> source.modified is None
            || target.modified is None,
        options.comparison == SyncComparison::Checksum ==> source.sha256 is None
            || target.sha256 is None,
        options.comparison != SyncComparison::SizeOnly,
    ensures
        copy_reason(source, Some(target), options) is Some,
{
}

/// A rule without a slash that excludes a path excludes everything below it.
pub proof fn component_rule_covers_subtree(rule: Seq<char>, path: Seq<char>, below: Seq<char>)
    requires
        !rule.contains('/'),
        rule_excludes(rule, path),
    ensures
        rule_excludes(rule, path + seq!['/'] + below),
{
    assert(slash()[0] == '/');
    split_at_separator(path, '/', below, slash());
    let whole = split_any(path + seq!['/'] + below, slash());
    let parts = split_any(path, slash());
    let i = choose|i: int|
        0 <= i < parts.len() && matches_wildcard(
            encode_utf8(rule),
            encode_utf8(#[trigger] parts[i]),
        );
    assert(whole[i] == parts[i]);
}

/// A rule with a slash excludes everything below the directory that it names.
pub proof fn path_rule_covers_subtree(rule: Seq<char>, below: Seq<char>)
    requires
        rule.contains('/'),
    ensures
        rule_excludes(rule, rule + seq!['/'] + below),
{
    let path = rule + seq!['/'] + below;
    assert(path.take(rule.len() as int) =~= rule);
}

/// An accepted rule set holds at most `MAX_RULES` rules, each once, each of them allowed.
pub proof fn accepted_rules_are_safe(input: Seq<char>)
    requires
        exclusions(input) is Ok,
    ensures
        ({
            let rules = exclusions(input)->Ok_0;
            &&& rules.len() <= MAX_RULES
            &&& rules.no_duplicates()
            &&& forall|i: int|
                0 <= i < rules.len() ==> (#[trigger] rules[i]).len() > 0 && rule_allowed(rules[i])
        }),
{
    lemma_rules_stay_safe(split_any(input, rule_separators()), Seq::empty());
}

proof fn lemma_rules_stay_safe(pieces: Seq<Seq<char>>, rules: Seq<Seq<char>>)
    requires
        rules_from(pieces, rules) is Ok,
        rules.len() <= MAX_RULES,
        rules.no_duplicates(),
        forall|i: int|
            0 <= i < rules.len() ==> (#[trigger] rules[i]).len() > 0 && rule_allowed(rules[i]),
    ensures
        ({
            let all = rules_from(pieces, rules)->Ok_0;
            &&& all.len() <= MAX_RULES
            &&& all.no_duplicates()
            &&& forall|i: int|
                0 <= i < all.len() ==> (#[trigger] all[i]).len() > 0 && rule_allowed(all[i])
        }),
    decreases pieces.len(),
{
    if pieces.len() > 0 {
        let rule = rule_of(pieces[0]);
        if rule.len() == 0 {
            lemma_rules_stay_safe(pieces.skip(1), rules);
        } else {
            let next = if rules.contains(rule) {
                rules
            } else {
                rules.push(rule)
            };
            lemma_rules_stay_safe(pieces.skip(1), next);
        }
    }
}

} // verus!
