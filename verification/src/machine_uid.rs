//! A fingerprint of the machine, which stays the same when the program is installed anew.
//!
//! It is derived from a value that the operating system keeps. It is no credential: it only
//! lets a user be asked whether two devices are the same machine.

use vstd::prelude::*;
use vstd::string::*;
use vstd::utf8::encode_utf8;

use crate::outside::{sha256, sha256_digest, utf16_lossy, utf16_text, MAX_HASH_INPUT};
use crate::text::{chars_of, hex_text, is_lower_hex, lemma_hex_text_alphabet, lemma_trimmed_twice, opt_text, to_hex, trim, trim_nul, trimmed, without_trailing_nul};

verus! {

/// Prefix of what is hashed; a new way to derive fingerprints gets a new number.
pub const UID_PREFIX: &'static str = "aw-muid/1";

/// Length of a fingerprint in hexadecimal digits.
pub const UID_HEX_LEN: usize = 16;

/// What is hashed for a platform and a raw value.
pub open spec fn uid_input(platform: Seq<char>, raw: Seq<char>) -> Seq<u8> {
    encode_utf8(UID_PREFIX@ + "\n"@ + platform + "\n"@ + raw)
}

/// The fingerprint for a platform and a raw value; none where either is missing.
pub open spec fn derived_uid(platform: Seq<char>, raw: Seq<char>) -> Option<Seq<char>> {
    let value = trimmed(raw);
    if platform.len() == 0 || value.len() == 0 || uid_input(platform, value).len()
        > MAX_HASH_INPUT {
        None
    } else {
        Some(hex_text(sha256_digest(uid_input(platform, value)).take(8)))
    }
}

/// Derives the fingerprint from a raw value of the operating system.
pub fn derive(platform: &str, raw: &str) -> (r: Option<String>)
    ensures
        opt_text(r) == derived_uid(platform@, raw@),
        r matches Some(uid) ==> uid@.len() == UID_HEX_LEN && forall|i: int|
            0 <= i < uid@.len() ==> is_lower_hex(#[trigger] uid@[i]),
{
    let value: String = trim(raw);
    if chars_of(platform).len() == 0 || chars_of(value.as_str()).len() == 0 {
        return None;
    }
    let mut s: String = UID_PREFIX.to_string();
    s.append("\n");
    s.append(platform);
    s.append("\n");
    s.append(value.as_str());
    let input: &[u8] = s.as_str().as_bytes();
    if input.len() as u64 > MAX_HASH_INPUT {
        return None;
    }
    let digest: Vec<u8> = sha256(input);
    assert(digest@.subrange(0, 8) =~= digest@.take(8));
    proof {
        lemma_hex_text_alphabet(digest@.take(8));
    }
    Some(to_hex(&digest.as_slice()[0..8]))
}

/// A raw value that the host handed in, with its platform.
pub struct Injected {
    value: Option<(String, String)>,
}

impl View for Injected {
    type V = Option<(Seq<char>, Seq<char>)>;

    closed spec fn view(&self) -> Option<(Seq<char>, Seq<char>)> {
        match self.value {
            Some(p) => Some((p.0@, p.1@)),
            None => None,
        }
    }
}

impl Injected {
    /// Nothing handed in.
    pub fn new() -> (r: Injected)
        ensures
            r@ is None,
    {
        Injected { value: None }
    }
}

/// Hands in a raw value, in place of an earlier one.
pub fn set_raw(slot: &mut Injected, platform: &str, raw: &str)
    ensures
        final(slot)@ == Some((platform@, raw@)),
{
    slot.value = Some((platform.to_string(), raw.to_string()));
}

/// Forgets the value that was handed in.
pub fn clear_injected(slot: &mut Injected)
    ensures
        final(slot)@ is None,
{
    slot.value = None;
}

/// The contents of a platform with a raw value.
pub open spec fn raw_view(native: Option<(String, String)>) -> Option<(Seq<char>, Seq<char>)> {
    match native {
        Some(p) => Some((p.0@, p.1@)),
        None => None,
    }
}

/// The fingerprint of this machine: from the value that was handed in, else from the one that
/// the operating system gave.
pub open spec fn own_uid(
    injected: Option<(Seq<char>, Seq<char>)>,
    native: Option<(Seq<char>, Seq<char>)>,
) -> Option<Seq<char>> {
    match injected {
        Some(p) => derived_uid(p.0, p.1),
        None => match native {
            Some(p) => derived_uid(p.0, p.1),
            None => None,
        },
    }
}

/// The fingerprint of this machine. `native` is what the operating system gave.
pub fn machine_uid(slot: &Injected, native: &Option<(String, String)>) -> (r: Option<String>)
    ensures
        opt_text(r) == own_uid(slot@, raw_view(*native)),
{
    match &slot.value {
        Some(p) => derive(p.0.as_str(), p.1.as_str()),
        None => match native {
            Some(p) => derive(p.0.as_str(), p.1.as_str()),
            None => None,
        },
    }
}

// ---- values of operating systems ----

/// The first file that holds more than white space, trimmed.
pub open spec fn first_filled(files: Seq<Option<Seq<char>>>) -> Option<Seq<char>>
    decreases files.len(),
{
    if files.len() == 0 {
        None
    } else if files[0] matches Some(t) && trimmed(t).len() > 0 {
        Some(trimmed(files[0]->0))
    } else {
        first_filled(files.drop_first())
    }
}

/// The contents of optional texts.
pub open spec fn opt_texts(list: Seq<Option<String>>) -> Seq<Option<Seq<char>>> {
    Seq::new(list.len(), |i: int| opt_text(list[i]))
}

/// The raw value on Linux, from the files that may hold it, in the order in which they count.
pub fn native_raw(files: &Vec<Option<String>>) -> (r: Option<(String, String)>)
    ensures
        raw_view(r) == (match first_filled(opt_texts(files@)) {
            Some(t) => Some(("linux"@, t)),
            None => None,
        }),
{
    let ghost all = opt_texts(files@);
    let mut i: usize = 0;
    assert(all.skip(0) =~= all);
    while i < files.len()
        invariant
            i <= files.len(),
            all == opt_texts(files@),
            first_filled(all) == first_filled(all.skip(i as int)),
        decreases files.len() - i,
    {
        assert(all.skip(i as int)[0] == opt_text(files@[i as int]));
        assert(all.skip(i as int).drop_first() =~= all.skip(i + 1));
        match &files[i] {
            Some(t) => {
                let value: String = trim(t.as_str());
                if chars_of(value.as_str()).len() > 0 {
                    return Some(("linux".to_string(), value));
                }
            },
            None => {},
        }
        i = i + 1;
    }
    None
}

/// The value that a registry holds as UTF-16 code units; none where it is empty.
pub open spec fn registry_text(units: Seq<u16>) -> Option<Seq<char>> {
    let guid = without_trailing_nul(trimmed(utf16_text(units)));
    if guid.len() == 0 {
        None
    } else {
        Some(guid)
    }
}

/// The machine id of a Windows installation, from the code units that the registry holds.
pub fn machine_guid(units: &Vec<u16>) -> (r: Option<String>)
    ensures
        opt_text(r) == registry_text(units@),
{
    let text: String = utf16_lossy(units.as_slice());
    let guid: String = trim_nul(trim(text.as_str()).as_str());
    if chars_of(guid.as_str()).len() == 0 {
        None
    } else {
        Some(guid)
    }
}

/// The raw value on Windows.
pub fn windows_raw(units: &Vec<u16>) -> (r: Option<(String, String)>)
    ensures
        raw_view(r) == (match registry_text(units@) {
            Some(guid) => Some(("windows"@, guid)),
            None => None,
        }),
{
    match machine_guid(units) {
        Some(guid) => Some(("windows".to_string(), guid)),
        None => None,
    }
}

// ---- laws ----

/// What was handed in counts, whatever the operating system gave, until it is forgotten.
pub proof fn law_injected_value_counts(
    platform: Seq<char>,
    raw: Seq<char>,
    native: Option<(Seq<char>, Seq<char>)>,
)
    ensures
        own_uid(Some((platform, raw)), native) == derived_uid(platform, raw),
        own_uid(None, native) == (match native {
            Some(p) => derived_uid(p.0, p.1),
            None => None,
        }),
{
}

/// There is no fingerprint without a platform, or with nothing but white space; and only then,
/// as long as the value is short enough to be hashed.
pub proof fn law_empty_value_gives_none(platform: Seq<char>, raw: Seq<char>)
    ensures
        platform.len() == 0 || trimmed(raw).len() == 0 ==> derived_uid(platform, raw) is None,
        uid_input(platform, trimmed(raw)).len() <= MAX_HASH_INPUT ==> (derived_uid(
            platform,
            raw,
        ) is None <==> platform.len() == 0 || trimmed(raw).len() == 0),
{
}

/// White space around a value does not change the fingerprint.
pub proof fn law_trimmed_value_counts(platform: Seq<char>, raw: Seq<char>)
    ensures
        derived_uid(platform, trimmed(raw)) == derived_uid(platform, raw),
{
    lemma_trimmed_twice(raw);
}

/// A fingerprint is the beginning of the hash of the platform and the value, in hexadecimal
/// digits.
pub proof fn law_fingerprint_is_hashed(platform: Seq<char>, raw: Seq<char>)
    ensures
        derived_uid(platform, raw) matches Some(uid) ==> uid == hex_text(
            sha256_digest(
                encode_utf8("aw-muid/1"@ + "\n"@ + platform + "\n"@ + trimmed(raw)),
            ).take(8),
        ),
{
}

/// The first file that holds more than white space counts, without the white space around it,
/// and there is no value exactly where none does.
pub proof fn law_first_filled_file_counts(files: Seq<Option<Seq<char>>>, i: int)
    requires
        0 <= i < files.len(),
        files[i] matches Some(t) && trimmed(t).len() > 0,
        forall|j: int|
            0 <= j < i ==> ((#[trigger] files[j]) matches Some(t) ==> trimmed(t).len() == 0),
    ensures
        first_filled(files) == Some(trimmed(files[i]->0)),
    decreases i,
{
    if i > 0 {
        let rest = files.drop_first();
        assert(files[0] matches Some(t) ==> trimmed(t).len() == 0);
        assert forall|j: int| 0 <= j < i - 1 implies ((#[trigger] rest[j]) matches Some(t)
            ==> trimmed(t).len() == 0) by {
            assert(rest[j] == files[j + 1]);
        }
        law_first_filled_file_counts(rest, i - 1);
    }
}

/// Files that hold nothing but white space give no value.
pub proof fn law_blank_files_give_none(files: Seq<Option<Seq<char>>>)
    requires
        forall|j: int|
            0 <= j < files.len() ==> ((#[trigger] files[j]) matches Some(t) ==> trimmed(t).len()
                == 0),
    ensures
        first_filled(files) is None,
    decreases files.len(),
{
    if files.len() > 0 {
        let rest = files.drop_first();
        assert(files[0] matches Some(t) ==> trimmed(t).len() == 0);
        assert forall|j: int| 0 <= j < rest.len() implies ((#[trigger] rest[j]) matches Some(t)
            ==> trimmed(t).len() == 0) by {
            assert(rest[j] == files[j + 1]);
        }
        law_blank_files_give_none(rest);
    }
}

/// A value of the registry that has no white space around it and ends without a zero counts as
/// it is; an empty one gives none.
pub proof fn law_registry_value_counts(units: Seq<u16>)
    requires
        trimmed(utf16_text(units)) == utf16_text(units),
        utf16_text(units).len() > 0 ==> utf16_text(units).last() != '\0',
    ensures
        utf16_text(units).len() > 0 ==> registry_text(units) == Some(utf16_text(units)),
        utf16_text(units).len() == 0 ==> registry_text(units) is None,
{
}

} // verus!
