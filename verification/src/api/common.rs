//! What the API's resources share: errors and the reading of request fields.
use crate::text::{blank, is_blank, opt_view, str_view, trim, trimmed};
use vstd::prelude::*;

verus! {

/// Why a request was refused.
#[derive(Debug, PartialEq, Eq)]
pub enum ApiError {
    /// The request is not one that can be carried out.
    BadRequest(String),
    /// Something failed on the way.
    Internal(String),
}

pub type ApiResult<T> = Result<T, ApiError>;

impl ApiError {
    /// The text that the client sees.
    pub open spec fn text(&self) -> Seq<char> {
        match self {
            ApiError::BadRequest(m) => "bad request: "@ + m@,
            ApiError::Internal(m) => "internal error: "@ + m@,
        }
    }

    /// The text that the client sees.
    pub fn message(&self) -> (res: String)
        ensures
            res@ == self.text(),
    {
        match self {
            ApiError::BadRequest(m) => String::from_str("bad request: ").concat(m.as_str()),
            ApiError::Internal(m) => String::from_str("internal error: ").concat(m.as_str()),
        }
    }

    /// The HTTP status of the error.
    pub fn status(&self) -> (res: u16)
        ensures
            res == (if self is BadRequest {
                400u16
            } else {
                500u16
            }),
    {
        match self {
            ApiError::BadRequest(_) => 400,
            ApiError::Internal(_) => 500,
        }
    }
}

/// Whether `e` refuses a request with this text.
pub open spec fn refuses(e: ApiError, text: Seq<char>) -> bool {
    e matches ApiError::BadRequest(m) && m@ == text
}

/// Refuses a request.
pub fn bad_request(text: &str) -> (res: ApiError)
    ensures
        refuses(res, text@),
{
    ApiError::BadRequest(text.to_owned())
}

/// The namespace of objects for which none is named.
pub const DEFAULT_NAMESPACE: &'static str = "proteus-system";

/// The text for a field that must be given.
pub open spec fn required_text(field: Seq<char>) -> Seq<char> {
    field + " must not be empty"@
}

/// Whether a field holds nothing but white space, or is missing.
pub open spec fn is_unset(value: Option<Seq<char>>) -> bool {
    match value {
        Some(s) => blank(s),
        None => true,
    }
}

/// The trimmed value of a field that must be given.
pub fn require_non_empty(field: &str, value: Option<&str>) -> (res: ApiResult<String>)
    ensures
        match res {
            Ok(s) => !is_unset(str_view(value)) && s@ == trim(str_view(value)->0),
            Err(e) => is_unset(str_view(value)) && refuses(e, required_text(field@)),
        },
{
    if let Some(s) = value {
        if !is_blank(s) {
            return Ok(trimmed(s));
        }
    }
    Err(ApiError::BadRequest(String::from_str(field).concat(" must not be empty")))
}

/// The trimmed texts that are not blank, in order.
pub open spec fn named_of(list: Seq<Seq<char>>) -> Seq<Seq<char>>
    decreases list.len(),
{
    if list.len() == 0 {
        seq![]
    } else {
        let rest = named_of(list.drop_last());
        if blank(list.last()) {
            rest
        } else {
            rest.push(trim(list.last()))
        }
    }
}

/// The trimmed texts that are not blank, in order.
pub fn named_list(list: &Vec<String>) -> (res: Vec<String>)
    ensures
        res.deep_view() == named_of(list.deep_view()),
{
    let ghost all = list.deep_view();
    let mut out: Vec<String> = Vec::new();
    let mut i: usize = 0;
    assert(all.take(0) =~= seq![]);
    assert(out.deep_view() =~= seq![]);
    while i < list.len()
        invariant
            i <= list@.len(),
            all == list.deep_view(),
            out.deep_view() == named_of(all.take(i as int)),
        decreases list@.len() - i,
    {
        let ghost before = out.deep_view();
        proof {
            assert(all.take(i + 1).drop_last() =~= all.take(i as int));
            assert(all.take(i + 1).last() == list@[i as int]@);
        }
        if !is_blank(list[i].as_str()) {
            let t = trimmed(list[i].as_str());
            out.push(t);
            assert(out.deep_view() =~= before.push(t@));
        }
        i += 1;
    }
    assert(all.take(i as int) =~= all);
    out
}

/// A borrowed optional text.
pub fn as_str_option(o: &Option<String>) -> (res: Option<&str>)
    ensures
        str_view(res) == opt_view(*o),
{
    match o {
        Some(s) => Some(s.as_str()),
        None => None,
    }
}

/// Of a list the entries that are not blank are kept, trimmed and in order.
pub proof fn law_named_entries_are_kept(a: Seq<Seq<char>>, b: Seq<Seq<char>>, x: Seq<char>)
    ensures
        named_of(a + b) == named_of(a) + named_of(b),
        blank(x) ==> named_of(seq![x]).len() == 0,
        !blank(x) ==> named_of(seq![x]) == seq![trim(x)],
    decreases b.len(),
{
    assert(seq![x].drop_last() =~= seq![]);
    assert(named_of(seq![]) =~= seq![]);
    if b.len() == 0 {
        assert(a + b =~= a);
        assert(named_of(a) + named_of(b) =~= named_of(a));
    } else {
        assert((a + b).drop_last() =~= a + b.drop_last());
        law_named_entries_are_kept(a, b.drop_last(), x);
        assert(named_of(a + b) =~= named_of(a) + named_of(b));
    }
    assert(named_of(seq![x]) =~= if blank(x) {
        seq![]
    } else {
        seq![trim(x)]
    });
}

/// A list names nothing exactly where all of its entries are blank.
pub proof fn law_list_names_nothing_where_all_is_blank(list: Seq<Seq<char>>)
    ensures
        named_of(list).len() == 0 <==> (forall|i: int|
            0 <= i < list.len() ==> blank(#[trigger] list[i])),
    decreases list.len(),
{
    if list.len() > 0 {
        let init = list.drop_last();
        law_list_names_nothing_where_all_is_blank(init);
        if named_of(list).len() == 0 {
            assert forall|i: int| 0 <= i < list.len() implies blank(#[trigger] list[i]) by {
                if i < init.len() {
                    assert(init[i] == list[i]);
                }
            }
        } else if forall|i: int| 0 <= i < list.len() ==> blank(#[trigger] list[i]) {
            assert forall|i: int| 0 <= i < init.len() implies blank(#[trigger] init[i]) by {
                assert(init[i] == list[i]);
            }
            assert(blank(list[list.len() - 1]));
        }
    }
}

/// A value is missing exactly where it names nothing.
pub proof fn law_unset_values_name_nothing(value: Option<Seq<char>>)
    ensures
        is_unset(value) <==> crate::text::named(value) is None,
{
    if let Some(s) = value {
        crate::text::lemma_trim_empty_iff_blank(s);
    }
}

/// What is missing is named in the refusal.
pub proof fn law_refusal_names_the_field(field: Seq<char>)
    ensures
        field.is_prefix_of(required_text(field)),
        required_text(field).len() > field.len(),
{
    reveal_strlit(" must not be empty");
    assert(required_text(field).subrange(0, field.len() as int) =~= field);
}

} // verus!
