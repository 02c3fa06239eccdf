//! When a record of a publication is valid, what it says of the active files, and
//! how it becomes the current one.

use crate::digest::hex_sha256;
use crate::journal::{
    classification, history_name_text, is_generation_text, is_safe_relative, journal_error,
    journal_json, journal_update_of, padded_text, ActiveStatus, CandidateDecision, JournalError,
    JournalFileView, JournalView,
};
use crate::json::json_encoding;
use crate::laws::texts::{law_decimal_spells_the_number, spelled};
use crate::text::{decimal_text, has_dot_dot, is_hex_digit, is_sha256_text};
use vstd::prelude::*;

verus! {

/// A generation is named by `g-` and six decimal digits, and by nothing else.
pub proof fn law_generation_names(s: Seq<char>)
    ensures
        is_generation_text(s) <==> s.len() == 8 && s[0] == 'g' && s[1] == '-' && (forall|i: int|
            2 <= i < 8 ==> '0' <= #[trigger] s[i] && s[i] <= '9'),
{
}

/// Whether a text is a digest: sixty-four hexadecimal digits.
pub open spec fn is_digest(s: Seq<char>) -> bool {
    s.len() == 64 && forall|i: int|
        0 <= i < 64 ==> ('0' <= #[trigger] s[i] && s[i] <= '9') || ('a' <= s[i] && s[i] <= 'f') || (
        'A' <= s[i] && s[i] <= 'F')
}

/// Whether a path can leave the directory that it is below: it starts with a slash
/// or holds two full stops in a row.
pub open spec fn may_leave(path: Seq<char>) -> bool {
    (path.len() > 0 && path[0] == '/') || exists|i: int|
        0 <= i < path.len() - 1 && #[trigger] path[i] == '.' && path[i + 1] == '.'
}

/// A record is valid exactly where it has the first version of the schema, a number
/// from one on, a generation and, of the generation that it replaces, everything or
/// nothing; where none of its paths can leave the output directory, its digests are
/// digests, and the one that it carries is that of its content.
pub proof fn law_valid_record_iff(v: JournalView)
    ensures
        journal_error(v) is None <==> {
            &&& v.schema_version == 1
            &&& v.journal_sequence >= 1
            &&& is_generation_text(v.generation)
            &&& match (
                v.previous_generation,
                v.previous_gallery_sha256,
                v.previous_state_sha256,
            ) {
                (None, None, None) => true,
                (Some(generation), Some(gallery), Some(state)) => is_generation_text(generation)
                    && generation != v.generation && is_digest(gallery) && is_digest(state),
                _ => false,
            }
            &&& !may_leave(v.gallery_path) && !may_leave(v.state_path) && !may_leave(
                v.staging_directory,
            ) && !may_leave(v.backup_directory)
            &&& is_digest(v.gallery_sha256) && is_digest(v.state_sha256)
            &&& v.record_sha256 == hex_sha256(json_encoding(journal_json(v)))
        },
{
    lemma_digest(v.gallery_sha256);
    lemma_digest(v.state_sha256);
    if v.previous_gallery_sha256 is Some {
        lemma_digest(v.previous_gallery_sha256->0);
    }
    if v.previous_state_sha256 is Some {
        lemma_digest(v.previous_state_sha256->0);
    }
    lemma_may_leave(v.gallery_path);
    lemma_may_leave(v.state_path);
    lemma_may_leave(v.staging_directory);
    lemma_may_leave(v.backup_directory);
}

pub proof fn lemma_digest(s: Seq<char>)
    ensures
        is_digest(s) <==> is_sha256_text(s),
{
    if is_digest(s) {
        assert forall|i: int| 0 <= i < s.len() implies is_hex_digit(#[trigger] s[i]) by {}
    }
    if is_sha256_text(s) {
        assert forall|i: int| 0 <= i < 64 implies ('0' <= #[trigger] s[i] && s[i] <= '9') || ('a'
            <= s[i] && s[i] <= 'f') || ('A' <= s[i] && s[i] <= 'F') by {
            assert(is_hex_digit(s[i]));
        }
    }
}

proof fn lemma_may_leave(path: Seq<char>)
    ensures
        is_safe_relative(path) <==> !may_leave(path),
{
    if has_dot_dot(path) {
        let i = choose|i: int|
            0 <= i < path.len() - 1 && #[trigger] path[i] == '.' && path[i + 1] == '.';
        assert(path[i] == '.');
    }
}

/// What a record is refused for is wrong with it.
pub proof fn law_record_error_has_its_cause(v: JournalView)
    ensures
        match journal_error(v) {
            Some(JournalError::UnsupportedSchemaVersion) => v.schema_version != 1,
            Some(JournalError::MissingSequenceOrGeneration) => v.journal_sequence == 0
                || !is_generation_text(v.generation),
            Some(JournalError::InvalidPreviousGeneration) => v.previous_generation matches Some(g)
                && (g == v.generation || !is_generation_text(g)),
            Some(JournalError::IncompletePrevious) => v.previous_generation is Some && (
            v.previous_gallery_sha256 is None || v.previous_state_sha256 is None)
                || v.previous_generation is None && (v.previous_gallery_sha256 is Some
                || v.previous_state_sha256 is Some),
            Some(JournalError::UnsafePath) => may_leave(v.gallery_path) || may_leave(v.state_path)
                || may_leave(v.staging_directory) || may_leave(v.backup_directory),
            Some(JournalError::InvalidCandidateHash) => !is_digest(v.gallery_sha256) || !is_digest(
                v.state_sha256,
            ),
            Some(JournalError::InvalidPreviousGalleryHash) => v.previous_gallery_sha256 matches Some(
                h,
            ) && !is_digest(h),
            Some(JournalError::InvalidPreviousStateHash) => v.previous_state_sha256 matches Some(h)
                && !is_digest(h),
            Some(JournalError::DigestMismatch) => v.record_sha256 != hex_sha256(
                json_encoding(journal_json(v)),
            ),
            Some(_) => false,
            None => true,
        },
{
    lemma_digest(v.gallery_sha256);
    lemma_digest(v.state_sha256);
    if v.previous_gallery_sha256 is Some {
        lemma_digest(v.previous_gallery_sha256->0);
    }
    if v.previous_state_sha256 is Some {
        lemma_digest(v.previous_state_sha256->0);
    }
    lemma_may_leave(v.gallery_path);
    lemma_may_leave(v.state_path);
    lemma_may_leave(v.staging_directory);
    lemma_may_leave(v.backup_directory);
}

/// An active file is of the new generation exactly where it has the digest of the
/// record, of the old one exactly where it has the digest of the generation before
/// and not that of the record, missing where it is not there, and corrupted in every
/// other case. Each file is held against its own digests.
pub proof fn law_active_files_are_told_by_their_digests(
    record: JournalView,
    gallery: Option<Seq<u8>>,
    state: Option<Seq<u8>>,
)
    ensures
        ({
            let seen = classification(record, gallery, state);
            &&& is_told_by_digest(
                seen.gallery,
                gallery,
                record.gallery_sha256,
                record.previous_gallery_sha256,
            )
            &&& is_told_by_digest(
                seen.state,
                state,
                record.state_sha256,
                record.previous_state_sha256,
            )
        }),
{
}

/// Whether a status is that of a file between the digests of two generations.
pub open spec fn is_told_by_digest(
    status: ActiveStatus,
    content: Option<Seq<u8>>,
    new: Seq<char>,
    old: Option<Seq<char>>,
) -> bool {
    &&& status == ActiveStatus::Missing <==> content is None
    &&& status == ActiveStatus::New <==> content is Some && hex_sha256(content->0) == new
    &&& status == ActiveStatus::Old <==> content is Some && hex_sha256(content->0) != new && old
        is Some && hex_sha256(content->0) == old->0
    &&& status == ActiveStatus::Corrupted <==> content is Some && hex_sha256(content->0) != new && (
    old is None || hex_sha256(content->0) != old->0)
}

/// The current record is kept in the history before another takes its place, under
/// the name of its own number, unless it is there already; a record that is not
/// valid takes no place, and one that is valid is written where there is no
/// candidate yet.
pub proof fn law_current_record_is_archived_first(
    record: JournalView,
    current: JournalFileView,
    archived: bool,
    candidate: JournalFileView,
)
    ensures
        match journal_update_of(record, current, archived, candidate) {
            Err(e) => journal_error(record) == Some(e),
            Ok((archive, decision)) => {
                &&& journal_error(record) is None
                &&& archive is Some <==> current is Valid && !archived
                &&& archive matches Some(name) ==> name == history_name_text(
                    current->Valid_0.journal_sequence,
                )
                &&& decision == CandidateDecision::Write <==> candidate is Absent
                &&& decision == CandidateDecision::Reuse <==> candidate == JournalFileView::Valid(
                    record,
                )
            },
        },
{
}

/// A record is archived under its number in twenty decimal digits, so no two numbers
/// share a name.
pub proof fn law_history_names(a: u64, b: u64)
    ensures
        ({
            let name = history_name_text(a);
            let digits = name.subrange(8, 28);
            &&& name.len() == 33
            &&& name == "journal-"@ + digits + ".json"@
            &&& spelled(digits) == a
            &&& forall|i: int|
                0 <= i < 20 ==> '0' <= #[trigger] digits[i] && digits[i] <= '9'
        }),
        history_name_text(a) == history_name_text(b) ==> a == b,
{
    lemma_history_name(a);
    lemma_history_name(b);
}

proof fn lemma_history_name(n: u64)
    ensures
        ({
            let name = history_name_text(n);
            let digits = name.subrange(8, 28);
            &&& name.len() == 33
            &&& name == "journal-"@ + digits + ".json"@
            &&& spelled(digits) == n
            &&& forall|i: int|
                0 <= i < 20 ==> '0' <= #[trigger] digits[i] && digits[i] <= '9'
        }),
{
    let text = decimal_text(n as nat);
    let padded = padded_text(n as nat, 20);
    let name = history_name_text(n);
    reveal_strlit("journal-");
    reveal_strlit(".json");
    law_decimal_spells_the_number(n as nat);
    assert(tens(20) == 100_000_000_000_000_000_000) by {
        reveal_with_fuel(tens, 21);
    }
    lemma_decimal_length(n as nat, 20);
    let zeros = Seq::new((20 - text.len()) as nat, |i: int| '0');
    assert(padded == zeros + text);
    lemma_leading_zeros(zeros.len(), text);
    assert(name.subrange(8, 28) =~= padded);
    assert(name =~= "journal-"@ + padded + ".json"@);
    assert forall|i: int| 0 <= i < 20 implies '0' <= #[trigger] padded[i] && padded[i] <= '9' by {
        if i >= zeros.len() {
            assert(padded[i] == text[i - zeros.len()]);
        }
    }
}

/// A power of ten.
spec fn tens(k: nat) -> nat
    decreases k,
{
    if k == 0 {
        1
    } else {
        10 * tens((k - 1) as nat)
    }
}

proof fn lemma_decimal_length(n: nat, k: nat)
    requires
        k >= 1,
        n < tens(k),
    ensures
        decimal_text(n).len() <= k,
    decreases n,
{
    if n >= 10 {
        assert(k >= 2) by {
            reveal_with_fuel(tens, 2);
        }
        assert(n / 10 < tens((k - 1) as nat));
        lemma_decimal_length(n / 10, (k - 1) as nat);
    }
}

proof fn lemma_leading_zeros(z: nat, digits: Seq<char>)
    ensures
        spelled(Seq::new(z, |i: int| '0') + digits) == spelled(digits),
    decreases z + digits.len(),
{
    let zeros = Seq::new(z, |i: int| '0');
    let all = zeros + digits;
    if digits.len() > 0 {
        assert(all.drop_last() =~= zeros + digits.drop_last());
        lemma_leading_zeros(z, digits.drop_last());
    } else if z > 0 {
        assert(all.drop_last() =~= Seq::new((z - 1) as nat, |i: int| '0') + digits);
        lemma_leading_zeros((z - 1) as nat, digits);
    } else {
        assert(all =~= digits);
    }
}

} // verus!
