//! Saved folder synchronizations.

use vstd::prelude::*;

use crate::controllers::sync_plan::FolderSyncKey;
use crate::controllers::sync_session::{
    direction_named, form_refusal, read_form, SyncForm, SyncRequest,
};
use crate::controllers::sync_scan::sync_options;
use crate::digest::{digest, hex_bytes, sha256, to_hex_bytes};
use crate::folder_sync::exclusions;
use crate::numerals::{decimal, parse_i64, signed_value, to_decimal};
use crate::pieces::{join, joined, texts, trim, trimmed};
use crate::text::{
    any_control, byte_len, chars_of, has_control, lowercase, plus, same_text, string_of,
    to_lowercase, utf8_len,
};

verus! {

pub const MAX_PROFILE_NAME_BYTES: usize = 128;

/// A saved synchronization. It refers to its server by the connection and by a digest of the
/// endpoint, so that it never runs against another one.
#[derive(Debug, PartialEq, Eq)]
pub struct SyncProfile {
    pub name: String,
    pub connection_id: usize,
    pub endpoint_fingerprint: String,
    pub local_root: String,
    pub remote_root: String,
    pub direction: String,
    pub mode: String,
    pub comparison: String,
    pub mtime_tolerance_secs: i64,
    pub server_clock_offset_secs: i64,
    pub exclusions: String,
}

impl Clone for SyncProfile {
    fn clone(&self) -> (r: Self)
        ensures
            r == *self,
    {
        SyncProfile {
            name: self.name.clone(),
            connection_id: self.connection_id,
            endpoint_fingerprint: self.endpoint_fingerprint.clone(),
            local_root: self.local_root.clone(),
            remote_root: self.remote_root.clone(),
            direction: self.direction.clone(),
            mode: self.mode.clone(),
            comparison: self.comparison.clone(),
            mtime_tolerance_secs: self.mtime_tolerance_secs,
            server_clock_offset_secs: self.server_clock_offset_secs,
            exclusions: self.exclusions.clone(),
        }
    }
}

/// The identity of an endpoint: protocol, host, port and user, with a zero byte between them.
pub open spec fn endpoint_identity(
    protocol: Seq<char>,
    host: Seq<char>,
    port: u16,
    user: Seq<char>,
) -> Seq<char> {
    protocol + "\0"@ + host + "\0"@ + decimal(port as nat) + "\0"@ + user
}

/// The digest of an endpoint's identity, in hexadecimal.
pub fn sync_endpoint_fingerprint(protocol: &str, host: &str, port: u16, user: &str) -> (r: String)
    ensures
        r@ == hex_bytes(
            sha256(
                vstd::utf8::encode_utf8(endpoint_identity(protocol@, host@, port, user@)),
            ),
        ),
{
    let a: String = plus(plus(plus(protocol.to_owned(), "\0"), host), "\0");
    let number: String = string_of(&to_decimal(port as u64));
    let identity: String = plus(plus(plus(a, number.as_str()), "\0"), user);
    let hash: Vec<u8> = digest(identity.as_str().as_bytes());
    string_of(&to_hex_bytes(&hash))
}

/// A name that a profile can have.
pub open spec fn profile_name_allowed(name: Seq<char>) -> bool {
    name.len() > 0 && utf8_len(name) <= MAX_PROFILE_NAME_BYTES && !has_control(name)
}

/// The first profile with the name, without regard to case.
pub open spec fn profile_named(profiles: Seq<SyncProfile>, name: Seq<char>, from: int) -> Option<int>
    decreases profiles.len() - from,
{
    if from < 0 || from >= profiles.len() {
        None
    } else if lowercase(profiles[from].name@) == lowercase(name) {
        Some(from)
    } else {
        profile_named(profiles, name, from + 1)
    }
}

pub fn find_profile(profiles: &Vec<SyncProfile>, name: &str) -> (r: Option<usize>)
    ensures
        match profile_named(profiles@, name@, 0) {
            Some(i) => r == Some(i as usize) && 0 <= i < profiles@.len(),
            None => r is None,
        },
{
    let canonical: String = to_lowercase(name);
    let mut i: usize = 0;
    while i < profiles.len()
        invariant
            i <= profiles@.len(),
            canonical@ == lowercase(name@),
            profile_named(profiles@, name@, i as int) == profile_named(profiles@, name@, 0),
        decreases profiles@.len() - i,
    {
        let saved: String = to_lowercase(profiles[i].name.as_str());
        if same_text(saved.as_str(), canonical.as_str()) {
            return Some(i);
        }
        i += 1;
    }
    None
}

/// Why a profile cannot be saved.
pub open spec fn save_refusal(
    name: Seq<char>,
    form: SyncForm,
    context: Option<Seq<char>>,
    fingerprint: Option<Seq<char>>,
) -> Option<Seq<char>> {
    if !profile_name_allowed(name) {
        Some("Profile name must contain 1–128 printable characters."@)
    } else if context is Some {
        context
    } else if direction_named(form.direction@) is None {
        Some("Cannot save profile: unknown synchronization direction"@)
    } else {
        match sync_options(
            direction_named(form.direction@)->0,
            form.comparison@,
            form.tolerance@,
            form.server_clock_offset@,
            form.mode@,
        ) {
            Err(e) => Some("Cannot save profile: "@ + e),
            Ok(_) => match exclusions(form.exclusions@) {
                Err(e) => Some("Cannot save profile: "@ + e),
                Ok(_) => match fingerprint {
                    Some(e) => Some("Cannot identify this profile's server safely: "@ + e),
                    None => None,
                },
            },
        }
    }
}

/// `profile` holds what the form says.
pub open spec fn profile_of(
    profile: SyncProfile,
    name: Seq<char>,
    form: SyncForm,
    key: FolderSyncKey,
    local_root: Seq<char>,
    fingerprint: Seq<char>,
) -> bool {
    &&& profile.name@ == name
    &&& profile.connection_id == key.connection_id.0
    &&& profile.endpoint_fingerprint@ == fingerprint
    &&& profile.local_root@ == local_root
    &&& profile.remote_root@ == key.remote_root@
    &&& profile.direction@ == form.direction@
    &&& profile.mode@ == form.mode@
    &&& profile.comparison@ == form.comparison@
    &&& signed_value(trimmed(form.tolerance@)) == Some(profile.mtime_tolerance_secs as int)
    &&& signed_value(trimmed(form.server_clock_offset@)) == Some(
        profile.server_clock_offset_secs as int,
    )
    &&& exclusions(form.exclusions@) matches Ok(rules)
    &&& profile.exclusions@ == joined(rules, ", "@)
}

/// The profile that a form stands for.
pub fn read_profile(
    raw_name: &str,
    form: &SyncForm,
    context: &Result<FolderSyncKey, String>,
    local_root: &str,
    fingerprint: &Result<String, String>,
) -> (r: Result<SyncProfile, String>)
    ensures
        ({
            let refusal = save_refusal(
                trimmed(raw_name@),
                *form,
                match *context {
                    Ok(_) => None,
                    Err(e) => Some(e@),
                },
                match *fingerprint {
                    Ok(_) => None,
                    Err(e) => Some(e@),
                },
            );
            &&& r is Ok <==> refusal is None
            &&& r matches Err(e) ==> refusal == Some(e@)
            &&& r matches Ok(profile) ==> profile_of(
                profile,
                trimmed(raw_name@),
                *form,
                context->Ok_0,
                local_root@,
                fingerprint->Ok_0@,
            )
        }),
{
    let raw: Vec<char> = chars_of(raw_name);
    let name: &[char] = trim(&raw);
    let text: String = string_of(name);
    if name.len() == 0 || byte_len(text.as_str()) > MAX_PROFILE_NAME_BYTES || any_control(name) {
        return Err("Profile name must contain 1–128 printable characters.".to_owned());
    }
    let key: &FolderSyncKey = match context {
        Err(e) => {
            return Err(e.clone());
        },
        Ok(key) => key,
    };
    let request: SyncRequest = match read_form(form) {
        Ok(request) => request,
        Err(_) => {
            return Err(refused_form(form));
        },
    };
    let fingerprint: &String = match fingerprint {
        Err(e) => {
            return Err(
                plus(
                    "Cannot identify this profile's server safely: ".to_owned(),
                    e.as_str(),
                ),
            );
        },
        Ok(fingerprint) => fingerprint,
    };
    let tolerance: Vec<char> = chars_of(form.tolerance.as_str());
    let offset: Vec<char> = chars_of(form.server_clock_offset.as_str());
    proof {
        crate::numerals::lemma_unsigned_is_signed(trimmed(form.tolerance@), u64::MAX as nat);
    }
    let mtime_tolerance_secs: i64 = match parse_i64(trim(&tolerance)) {
        Some(n) => n,
        None => 0,
    };
    let server_clock_offset_secs: i64 = match parse_i64(trim(&offset)) {
        Some(n) => n,
        None => 0,
    };
    Ok(
        SyncProfile {
            name: text,
            connection_id: key.connection_id.0,
            endpoint_fingerprint: fingerprint.clone(),
            local_root: local_root.to_owned(),
            remote_root: key.remote_root.clone(),
            direction: form.direction.clone(),
            mode: form.mode.clone(),
            comparison: form.comparison.clone(),
            mtime_tolerance_secs,
            server_clock_offset_secs,
            exclusions: join_rules(&request.exclusions),
        },
    )
}

/// The rules as one text.
fn join_rules(rules: &Vec<String>) -> (r: String)
    ensures
        r@ == joined(texts(rules@), ", "@),
{
    let mut parts: Vec<Vec<char>> = Vec::new();
    let mut i: usize = 0;
    while i < rules.len()
        invariant
            i <= rules@.len(),
            parts@.len() == i,
            forall|j: int| 0 <= j < i ==> (#[trigger] parts@[j])@ == rules@[j]@,
        decreases rules@.len() - i,
    {
        parts.push(chars_of(rules[i].as_str()));
        i += 1;
    }
    assert(crate::pieces::views(parts@) =~= texts(rules@));
    let separator: Vec<char> = chars_of(", ");
    string_of(&join(&parts, &separator))
}

/// The text about a form that asks for nothing that can be done.
fn refused_form(form: &SyncForm) -> (r: String)
    requires
        form_refusal(*form) is Some,
    ensures
        ({
            let options = sync_options(
                direction_named(form.direction@)->0,
                form.comparison@,
                form.tolerance@,
                form.server_clock_offset@,
                form.mode@,
            );
            if direction_named(form.direction@) is None {
                r@ == "Cannot save profile: unknown synchronization direction"@
            } else if options is Err {
                r@ == "Cannot save profile: "@ + options->Err_0
            } else {
                r@ == "Cannot save profile: "@ + exclusions(form.exclusions@)->Err_0
            }
        }),
{
    proof {
        reveal_strlit("upload");
        reveal_strlit("download");
        assert(crate::controllers::state::SyncDirection::Upload.word() == "upload"@);
        assert(crate::controllers::state::SyncDirection::Download.word() == "download"@);
    }
    let direction = match crate::controllers::state::SyncDirection::try_from(
        form.direction.as_str(),
    ) {
        Err(_) => {
            return "Cannot save profile: unknown synchronization direction".to_owned();
        },
        Ok(direction) => direction.transfer_direction(),
    };
    match crate::controllers::sync_scan::parse_folder_sync_options(
        direction,
        form.comparison.as_str(),
        form.tolerance.as_str(),
        form.server_clock_offset.as_str(),
        form.mode.as_str(),
    ) {
        Err(e) => {
            return plus("Cannot save profile: ".to_owned(), e.as_str());
        },
        Ok(_) => {},
    }
    match crate::folder_sync::parse_exclusions(form.exclusions.as_str()) {
        Err(e) => plus("Cannot save profile: ".to_owned(), e.as_str()),
        Ok(_) => String::new(),
    }
}

/// The profiles after one has been saved, and its position: a profile of the same name, without
/// regard to case, is replaced.
pub fn save_sync_profile(profiles: &mut Vec<SyncProfile>, profile: SyncProfile, max_profiles: usize) -> (r:
    Result<usize, String>)
    ensures
        ({
            let before = old(profiles)@;
            let after = final(profiles)@;
            match profile_named(before, profile.name@, 0) {
                Some(i) => r == Ok::<usize, String>(i as usize) && after == before.update(
                    i,
                    profile,
                ),
                None => if before.len() >= max_profiles {
                    (r matches Err(e) && e@ == "At most "@ + decimal(max_profiles as nat)
                        + " synchronization profiles can be saved."@) && after == before
                } else {
                    r == Ok::<usize, String>(before.len() as usize) && after == before.push(profile)
                },
            }
        }),
{
    match find_profile(profiles, profile.name.as_str()) {
        Some(i) => {
            profiles.set(i, profile);
            Ok(i)
        },
        None => {
            let n: usize = profiles.len();
            if n >= max_profiles {
                let number: String = string_of(&to_decimal(max_profiles as u64));
                return Err(
                    plus(
                        plus("At most ".to_owned(), number.as_str()),
                        " synchronization profiles can be saved.",
                    ),
                );
            }
            profiles.push(profile);
            Ok(n)
        },
    }
}

/// No two profiles have the same name, without regard to case.
pub open spec fn distinct_names(profiles: Seq<SyncProfile>) -> bool {
    forall|i: int, j: int|
        0 <= i < j < profiles.len() ==> lowercase((#[trigger] profiles[i]).name@) != lowercase(
            (#[trigger] profiles[j]).name@,
        )
}

proof fn lemma_profile_named(profiles: Seq<SyncProfile>, name: Seq<char>, from: int)
    requires
        0 <= from <= profiles.len(),
    ensures
        match profile_named(profiles, name, from) {
            Some(i) => from <= i < profiles.len() && lowercase(profiles[i].name@) == lowercase(
                name,
            ) && forall|j: int|
                from <= j < i ==> lowercase((#[trigger] profiles[j]).name@) != lowercase(name),
            None => forall|j: int|
                from <= j < profiles.len() ==> lowercase((#[trigger] profiles[j]).name@)
                    != lowercase(name),
        },
    decreases profiles.len() - from,
{
    if from < profiles.len() && lowercase(profiles[from].name@) != lowercase(name) {
        lemma_profile_named(profiles, name, from + 1);
    }
}

/// Saving keeps the names distinct, and a saved profile is found again under its name.
pub proof fn saved_profiles_are_found_again(profiles: Seq<SyncProfile>, profile: SyncProfile)
    requires
        distinct_names(profiles),
    ensures
        ({
            let after = match profile_named(profiles, profile.name@, 0) {
                Some(i) => profiles.update(i, profile),
                None => profiles.push(profile),
            };
            &&& distinct_names(after)
            &&& profile_named(after, profile.name@, 0) matches Some(at)
            &&& after[at] == profile
        }),
{
    lemma_profile_named(profiles, profile.name@, 0);
    let after = match profile_named(profiles, profile.name@, 0) {
        Some(i) => profiles.update(i, profile),
        None => profiles.push(profile),
    };
    lemma_profile_named(after, profile.name@, 0);
    match profile_named(profiles, profile.name@, 0) {
        Some(i) => {
            assert(after[i] == profile);
            let at = profile_named(after, profile.name@, 0)->0;
            if at != i {
                assert(after[at] == profiles[at]);
                if at < i {
                    assert(lowercase(profiles[at].name@) != lowercase(profiles[i].name@));
                } else {
                    assert(lowercase(after[i].name@) == lowercase(profile.name@));
                }
            }
        },
        None => {
            let n = profiles.len() as int;
            assert(after[n] == profile);
            let at = profile_named(after, profile.name@, 0)->0;
            if at < n {
                assert(after[at] == profiles[at]);
            }
        },
    }
}

/// Why a saved profile is not loaded.
pub open spec fn load_refusal(
    profile: SyncProfile,
    context: Result<FolderSyncKey, Seq<char>>,
    fingerprint: Option<Seq<char>>,
    local_root: Result<bool, Seq<char>>,
    still_connected: bool,
) -> Option<Seq<char>> {
    match context {
        Err(e) => Some(e),
        Ok(key) => if key.connection_id.0 != profile.connection_id || fingerprint != Some(
            profile.endpoint_fingerprint@,
        ) {
            Some(
                "Connect the exact server referenced by this profile in the remote pane first."@,
            )
        } else {
            match local_root {
                Err(e) => Some(e),
                Ok(present) => if !present {
                    Some("The profile has no local folder."@)
                } else if !still_connected {
                    Some("The remote connection changed; profile was not loaded."@)
                } else {
                    None
                },
            }
        },
    }
}

/// Whether a saved profile may be loaded: the remote pane must be connected to the very server that
/// it was saved for.
pub fn load_sync_profile(
    profile: &SyncProfile,
    context: &Result<FolderSyncKey, String>,
    fingerprint: Option<&str>,
    local_root: &Result<bool, String>,
    still_connected: bool,
) -> (r: Result<(), String>)
    ensures
        ({
            let refusal = load_refusal(
                *profile,
                match *context {
                    Ok(key) => Ok(key),
                    Err(e) => Err(e@),
                },
                match fingerprint {
                    Some(f) => Some(f@),
                    None => None,
                },
                match *local_root {
                    Ok(present) => Ok(present),
                    Err(e) => Err(e@),
                },
                still_connected,
            );
            &&& r is Ok <==> refusal is None
            &&& r matches Err(e) ==> refusal == Some(e@)
        }),
{
    let key: &FolderSyncKey = match context {
        Err(e) => {
            return Err(e.clone());
        },
        Ok(key) => key,
    };
    let endpoint_matches: bool = match fingerprint {
        Some(f) => same_text(f, profile.endpoint_fingerprint.as_str()),
        None => false,
    };
    if key.connection_id.0 != profile.connection_id || !endpoint_matches {
        return Err(
            "Connect the exact server referenced by this profile in the remote pane first.".to_owned(),
        );
    }
    match local_root {
        Err(e) => {
            return Err(e.clone());
        },
        Ok(present) => {
            if !*present {
                return Err("The profile has no local folder.".to_owned());
            }
        },
    }
    if !still_connected {
        return Err("The remote connection changed; profile was not loaded.".to_owned());
    }
    Ok(())
}

/// A profile never acts on a server other than the one that it was saved for.
pub proof fn profiles_stay_with_their_server(
    profile: SyncProfile,
    context: Result<FolderSyncKey, Seq<char>>,
    fingerprint: Option<Seq<char>>,
    local_root: Result<bool, Seq<char>>,
    still_connected: bool,
)
    requires
        load_refusal(profile, context, fingerprint, local_root, still_connected) is None,
    ensures
        context matches Ok(key) && key.connection_id.0 == profile.connection_id,
        fingerprint == Some(profile.endpoint_fingerprint@),
        still_connected,
{
}

/// Remove the profile at a position; its name, if there is one.
pub fn delete_sync_profile(profiles: &mut Vec<SyncProfile>, index: usize) -> (r: Option<String>)
    ensures
        index < old(profiles)@.len() ==> final(profiles)@ == old(profiles)@.remove(index as int)
            && r == Some(old(profiles)@[index as int].name),
        index >= old(profiles)@.len() ==> final(profiles)@ == old(profiles)@ && r is None,
{
    if index >= profiles.len() {
        return None;
    }
    let removed: SyncProfile = profiles.remove(index);
    Some(removed.name)
}

/// The sentence about what was done with a profile.
pub fn saved_profile_text(name: &str) -> (r: String)
    ensures
        r@ == "Saved synchronization profile “"@ + name@ + "”."@,
{
    plus(plus("Saved synchronization profile “".to_owned(), name), "”.")
}

pub fn loaded_profile_text(name: &str) -> (r: String)
    ensures
        r@ == "Loaded profile “"@ + name@ + "”; run a fresh dry-run preview."@,
{
    plus(plus("Loaded profile “".to_owned(), name), "”; run a fresh dry-run preview.")
}

pub fn deleted_profile_text(name: &str) -> (r: String)
    ensures
        r@ == "Deleted synchronization profile “"@ + name@ + "”."@,
{
    plus(plus("Deleted synchronization profile “".to_owned(), name), "”.")
}

/// The selected row of the list of profiles; -1 for none.
pub fn refresh_sync_profile_model(count: usize, selected: Option<usize>) -> (r: i32)
    ensures
        r == (match selected {
            Some(i) => if i < count && i <= i32::MAX {
                i as int
            } else {
                -1int
            },
            None => -1int,
        }),
{
    match selected {
        Some(i) => if i < count && i <= 0x7fff_ffff {
            i as i32
        } else {
            -1
        },
        None => -1,
    }
}

} // verus!
