//! Content identifiers, as listeners print them and dialers read them.

use cid::CidGeneric;
use vstd::prelude::*;

verus! {

/// A content identifier of the `cid` crate.
#[verifier::external_type_specification]
#[verifier::external_body]
pub struct ExCid<const S: usize>(CidGeneric<S>);

/// The text of the content identifier `cid`.
pub uninterp spec fn cid_text(cid: CidGeneric<64>) -> Seq<char>;

/// The text of the content identifier that is read from `text`, or what is said
/// of why none is.
pub uninterp spec fn cid_reading(text: Seq<char>) -> Result<Seq<char>, Seq<char>>;

/// What a reading of a content identifier gave, by its texts.
pub open spec fn reading_view(read: Result<CidGeneric<64>, String>) -> Result<
    Seq<char>,
    Seq<char>,
> {
    match read {
        Ok(cid) => Ok(cid_text(cid)),
        Err(error) => Err(error@),
    }
}

/// `cid::Cid::to_string`: the identifier's text. Read again, it gives an
/// identifier of the same text.
#[verifier::external_body]
pub(crate) fn print_cid(cid: &CidGeneric<64>) -> (text: String)
    ensures
        text@ == cid_text(*cid),
        cid_reading(text@) == Ok::<Seq<char>, Seq<char>>(text@),
{
    cid.to_string()
}

/// `cid::Cid::from_str`: the identifier that a text stands for, or the text of
/// the error, which says why it stands for none. Both are fixed by the text: an
/// error of the operating system is never among those that reading can meet.
#[verifier::external_body]
pub(crate) fn parse_cid(text: &str) -> (read: Result<CidGeneric<64>, String>)
    ensures
        reading_view(read) == cid_reading(text@),
{
    text.parse::<CidGeneric<64>>().map_err(|error| error.to_string())
}

/// A reading is the identifier's text, or the text of the error.
pub proof fn law_reading_view(cid: CidGeneric<64>, error: String)
    ensures
        reading_view(Ok(cid)) == Ok::<Seq<char>, Seq<char>>(cid_text(cid)),
        reading_view(Err(error)) == Err::<Seq<char>, Seq<char>>(error@),
{
}

} // verus!
