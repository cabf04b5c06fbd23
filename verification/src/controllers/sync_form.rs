//! Filling the window in which a folder synchronization is set up.

use vstd::prelude::*;

use crate::controllers::sync_plan::FolderSyncKey;
use crate::controllers::sync_profiles::{find_profile, profile_named, profile_of, SyncProfile};
use crate::controllers::sync_scan::sync_options;
use crate::controllers::sync_session::{direction_named, form_refusal, SyncForm};
use crate::folder_sync::{exclusions, MAX_RULESET_BYTES};
use crate::numerals::{
    decimal, decimal_reads_back, is_digit, lemma_unsigned_is_signed, signed_decimal, signed_value,
    to_signed_decimal, unsigned_value,
};
use crate::pieces::{lemma_trimmed_fixed, trimmed};
use crate::rule_text::exclusions_read_back;
use crate::text::{string_of, utf8_len};

verus! {

/// The window as it opens: an upload that deletes nothing, compared as the settings say.
pub fn opening_form(exclusions: &str, comparison: &str, mtime_tolerance_secs: i64) -> (r: SyncForm)
    ensures
        r.direction@ == "upload"@,
        r.mode@ == "one_way"@,
        !r.mirror_confirmed,
        r.exclusions@ == exclusions@,
        r.comparison@ == comparison@,
        r.tolerance@ == signed_decimal(mtime_tolerance_secs as int),
        r.server_clock_offset@ == "0"@,
{
    SyncForm {
        direction: "upload".to_owned(),
        exclusions: exclusions.to_owned(),
        comparison: comparison.to_owned(),
        tolerance: string_of(&to_signed_decimal(mtime_tolerance_secs)),
        server_clock_offset: "0".to_owned(),
        mode: "one_way".to_owned(),
        mirror_confirmed: false,
    }
}

/// The form shows what the profile holds. A mirror is never confirmed beforehand.
pub open spec fn form_shows_profile(form: SyncForm, profile: SyncProfile) -> bool {
    &&& form.direction@ == profile.direction@
    &&& form.mode@ == profile.mode@
    &&& form.comparison@ == profile.comparison@
    &&& form.tolerance@ == signed_decimal(profile.mtime_tolerance_secs as int)
    &&& form.server_clock_offset@ == signed_decimal(profile.server_clock_offset_secs as int)
    &&& form.exclusions@ == profile.exclusions@
    &&& !form.mirror_confirmed
}

/// The window after a profile has been loaded.
pub fn profile_form(profile: &SyncProfile) -> (r: SyncForm)
    ensures
        form_shows_profile(r, *profile),
{
    SyncForm {
        direction: profile.direction.clone(),
        exclusions: profile.exclusions.clone(),
        comparison: profile.comparison.clone(),
        tolerance: string_of(&to_signed_decimal(profile.mtime_tolerance_secs)),
        server_clock_offset: string_of(&to_signed_decimal(profile.server_clock_offset_secs)),
        mode: profile.mode.clone(),
        mirror_confirmed: false,
    }
}

/// The profile that is selected once the list has been read again after a save: the one with the
/// name, else the one that stands where the saved one stood, as far as the list reaches.
pub fn reselected_profile(profiles: &Vec<SyncProfile>, name: &str, position: usize) -> (r: usize)
    ensures
        r == (match profile_named(profiles@, name@, 0) {
            Some(i) => i,
            None => if profiles@.len() == 0 {
                0
            } else if position < profiles@.len() {
                position as int
            } else {
                profiles@.len() - 1
            },
        }),
{
    let count: usize = profiles.len();
    match find_profile(profiles, name) {
        Some(i) => i,
        None => if count == 0 {
            0
        } else if position < count {
            position
        } else {
            count - 1
        },
    }
}

proof fn lemma_numeral_is_trimmed(n: int)
    ensures
        trimmed(signed_decimal(n)) == signed_decimal(n),
{
    let m = if n < 0 {
        (-n) as nat
    } else {
        n as nat
    };
    decimal_reads_back(m);
    let digits = decimal(m);
    let text = signed_decimal(n);
    assert(is_digit(digits[0]));
    assert(is_digit(digits[digits.len() - 1]));
    assert(text.last() == digits.last());
    lemma_trimmed_fixed(text);
}

proof fn lemma_signed_reads_back(n: i64)
    ensures
        signed_value(signed_decimal(n as int)) == Some(n as int),
{
    if n < 0 {
        let m = (-(n as int)) as nat;
        decimal_reads_back(m);
        assert(signed_decimal(n as int).skip(1) =~= decimal(m));
    } else {
        lemma_unsigned_reads_back(n as nat, i64::MAX as nat);
        assert(is_digit(decimal(n as nat)[0]));
    }
}

proof fn lemma_unsigned_reads_back(n: nat, max: nat)
    requires
        n <= max,
    ensures
        unsigned_value(decimal(n), max) == Some(n),
        is_digit(decimal(n)[0]),
{
    decimal_reads_back(n);
    assert(is_digit(decimal(n)[0]));
}

/// A profile gives back what was saved: loaded again, the window asks for the same direction, the
/// same options and the same exclusions, and a mirror must be confirmed anew. The exclusions must
/// be such that they read back.
pub proof fn loaded_profiles_ask_for_the_same(
    form: SyncForm,
    profile: SyncProfile,
    name: Seq<char>,
    key: FolderSyncKey,
    local_root: Seq<char>,
    fingerprint: Seq<char>,
    shown: SyncForm,
)
    requires
        form_refusal(form) is None,
        profile_of(profile, name, form, key, local_root, fingerprint),
        form_shows_profile(shown, profile),
        exclusions(form.exclusions@) matches Ok(rules) ==> forall|i: int|
            0 <= i < rules.len() ==> trimmed(#[trigger] rules[i]) == rules[i],
        utf8_len(profile.exclusions@) <= MAX_RULESET_BYTES,
    ensures
        form_refusal(shown) is None,
        direction_named(shown.direction@) == direction_named(form.direction@),
        ({
            let direction = direction_named(form.direction@)->0;
            sync_options(
                direction,
                shown.comparison@,
                shown.tolerance@,
                shown.server_clock_offset@,
                shown.mode@,
            ) == sync_options(
                direction,
                form.comparison@,
                form.tolerance@,
                form.server_clock_offset@,
                form.mode@,
            )
        }),
        exclusions(shown.exclusions@) == exclusions(form.exclusions@),
        !shown.mirror_confirmed,
{
    exclusions_read_back(form.exclusions@, exclusions(form.exclusions@)->Ok_0);
    let tolerance = profile.mtime_tolerance_secs;
    let offset = profile.server_clock_offset_secs;
    lemma_unsigned_is_signed(trimmed(form.tolerance@), u64::MAX as nat);
    assert(tolerance >= 0);
    lemma_numeral_is_trimmed(tolerance as int);
    lemma_numeral_is_trimmed(offset as int);
    lemma_unsigned_reads_back(tolerance as nat, u64::MAX as nat);
    lemma_signed_reads_back(offset);
}

} // verus!
