//! Who is calling: the bearer token off a request, and the identity that travels with it inside.
//!
//! The authentication layer strips the two internal headers from every request, validates the token,
//! and sets them from what the token carries. Requests behind it read the caller from those headers
//! and from nothing else.

use vstd::prelude::*;

use crate::a2a::lifecycle::CallerCtx;
use crate::a2a::model::{error_view, A2aError, ErrorKind, ErrorView};
use crate::net;
use crate::net::is_header_value;
use crate::text;
use crate::text::{
    joined, lemma_position_bounds, lemma_text_le_antisymmetric, lemma_text_le_total, lemma_text_le_transitive, opt_str_view,
    pieces, position_from, text_le, trimmed, views,
};

verus! {

/// Internal header of the caller's identity.
pub const HDR_CALLER: &'static str = "x-lb-a2a-caller";

/// Internal header of the caller's permissions, joined with commas.
pub const HDR_PERMS: &'static str = "x-lb-a2a-perms";

/// The largest request body.
pub const MAX_BODY_BYTES: usize = 262_144;

/// The address to serve on, unless configured.
pub const DEFAULT_BIND: &'static str = "0.0.0.0:8080";

/// The base URL to advertise, unless configured.
pub const DEFAULT_BASE_URL: &'static str = "http://localhost:8080";

/// A setting that is not blank, else a default.
pub open spec fn setting_or(value: Option<Seq<char>>, default: Seq<char>) -> Seq<char> {
    match value {
        Some(v) => if trimmed(v).len() == 0 {
            default
        } else {
            v
        },
        None => default,
    }
}

fn non_blank_or(value: Option<&str>, default: &str) -> (r: String)
    ensures
        r@ == setting_or(opt_str_view(value), default@),
{
    match value {
        Some(v) => if text::blank(v) {
            default.to_owned()
        } else {
            v.to_owned()
        },
        None => default.to_owned(),
    }
}

/// The address to serve on.
pub fn bind_addr(configured: Option<&str>) -> (r: String)
    ensures
        r@ == setting_or(opt_str_view(configured), DEFAULT_BIND@),
{
    non_blank_or(configured, DEFAULT_BIND)
}

/// The base URL the agent card advertises.
pub fn base_url(configured: Option<&str>) -> (r: String)
    ensures
        r@ == setting_or(opt_str_view(configured), DEFAULT_BASE_URL@),
{
    non_blank_or(configured, DEFAULT_BASE_URL)
}

/// The token of an authorization header: what follows `Bearer ` and a space.
pub open spec fn token_of(header: Option<Seq<char>>) -> Option<Seq<char>> {
    match header {
        Some(h) => if text::occurs_at(h, "Bearer "@, 0) {
            Some(h.skip("Bearer "@.len() as int))
        } else {
            None
        },
        None => None,
    }
}

/// The token of an authorization header.
pub fn bearer_token<'a>(header: Option<&'a str>) -> (r: Option<&'a str>)
    ensures
        opt_str_view(r) == token_of(opt_str_view(header)),
{
    proof {
        reveal_strlit("Bearer ");
    }
    match header {
        Some(h) => {
            let n: usize = h.unicode_len();
            if n < 7 {
                return None;
            }
            let start: &'a str = h.substring_char(0, 7);
            if text::same(start, "Bearer ") {
                let token: &'a str = h.substring_char(7, n);
                assert(h@.subrange(0, "Bearer "@.len() as int) =~= "Bearer "@);
                assert(token@ =~= h@.skip(7));
                Some(token)
            } else {
                assert(h@.subrange(0, "Bearer "@.len() as int) == start@);
                None
            }
        },
        None => None,
    }
}

/// Whether texts stand in order.
pub open spec fn in_text_order(s: Seq<Seq<char>>) -> bool {
    forall|i: int, j: int| 0 <= i < j < s.len() ==> text_le(#[trigger] s[i], #[trigger] s[j])
}

/// Sorts texts.
pub fn sort_texts(v: Vec<String>) -> (r: Vec<String>)
    ensures
        in_text_order(views(r@)),
        views(r@).to_multiset() == views(v@).to_multiset(),
{
    let mut rest: Vec<String> = v;
    let ghost all = views(rest@);
    let mut out: Vec<String> = Vec::new();
    proof {
        assert(views(out@) =~= Seq::empty());
        assert(views(out@) + views(rest@) =~= all);
        assert(views(out@).to_multiset().add(views(rest@).to_multiset()) =~= all.to_multiset()) by {
            vstd::seq_lib::lemma_multiset_commutative(views(out@), views(rest@));
        }
    }
    while rest.len() > 0
        invariant
            in_text_order(views(out@)),
            views(out@).to_multiset().add(views(rest@).to_multiset()) =~= all.to_multiset(),
        decreases rest@.len(),
    {
        let ghost rest_before = views(rest@);
        let ghost out_before = views(out@);
        let item: String = rest.pop().unwrap();
        let mut at: usize = out.len();
        while at > 0 && !text::not_after(out[at - 1].as_str(), item.as_str())
            invariant
                at <= out@.len(),
                views(out@) == out_before,
                in_text_order(views(out@)),
                forall|k: int|
                    at <= k < out@.len() ==> text_le(item@, #[trigger] views(out@)[k]),
            decreases at,
        {
            proof {
                assert(views(out@)[at - 1] == out@[at - 1]@);
                lemma_text_le_total(out@[at - 1]@, item@);
            }
            at = at - 1;
        }
        proof {
            if at > 0 {
                assert(views(out@)[at - 1] == out@[at - 1]@);
                assert(text_le(views(out@)[at - 1], item@));
            }
        }
        out.insert(at, item);
        proof {
            let now = views(out@);
            assert(now =~= out_before.insert(at as int, item@));
            assert forall|i: int, j: int| 0 <= i < j < now.len() implies text_le(
                #[trigger] now[i],
                #[trigger] now[j],
            ) by {
                let x = if i < at { i } else { i - 1 };
                let y = if j < at { j } else { j - 1 };
                if i != at && j != at {
                    assert(now[i] == out_before[x] && now[j] == out_before[y]);
                    assert(text_le(out_before[x], out_before[y]));
                } else if j == at {
                    assert(now[i] == out_before[i]);
                    if i < at - 1 {
                        assert(text_le(out_before[i], out_before[at - 1]));
                        lemma_text_le_transitive(out_before[i], out_before[at - 1], item@);
                    }
                } else {
                    assert(now[j] == out_before[y]);
                }
            }
            vstd::seq_lib::to_multiset_insert(out_before, at as int, item@);
            assert(rest_before =~= views(rest@).push(item@));
            vstd::seq_lib::to_multiset_build(views(rest@), item@);
        }
    }
    assert(views(rest@) =~= Seq::empty());
    assert(views(out@).to_multiset() =~= all.to_multiset());
    out
}

/// Texts stand in order in one way only.
proof fn lemma_one_order(a: Seq<Seq<char>>, b: Seq<Seq<char>>)
    requires
        in_text_order(a),
        in_text_order(b),
        a.to_multiset() == b.to_multiset(),
    ensures
        a == b,
{
    let le = |x: Seq<char>, y: Seq<char>| text_le(x, y);
    assert forall|x: Seq<char>, y: Seq<char>| #[trigger] le(x, y) || #[trigger] le(y, x) by {
        lemma_text_le_total(x, y);
    }
    assert forall|x: Seq<char>, y: Seq<char>| #[trigger] le(x, y) && #[trigger] le(y, x) implies x
        == y by {
        lemma_text_le_antisymmetric(x, y);
    }
    assert forall|x: Seq<char>, y: Seq<char>, z: Seq<char>| #[trigger]
        le(x, y) && #[trigger] le(y, z) implies le(x, z) by {
        lemma_text_le_transitive(x, y, z);
    }
    assert forall|x: Seq<char>| #[trigger] le(x, x) by {
        lemma_text_le_total(x, x);
    }
    vstd::seq_lib::lemma_sorted_unique(a, b, le);
}

/// Why a request is not let in.
#[derive(Clone, Copy, Debug, PartialEq, Eq, Structural)]
pub enum AuthRefusal {
    MissingToken,
    InvalidToken,
    UnrepresentableIdentity,
}

/// The sentence a request that is not let in is answered with.
pub open spec fn refusal_text(r: AuthRefusal) -> Seq<char> {
    match r {
        AuthRefusal::MissingToken => "missing bearer token"@,
        AuthRefusal::InvalidToken => "invalid token"@,
        AuthRefusal::UnrepresentableIdentity => "unrepresentable identity"@,
    }
}

impl AuthRefusal {
    /// The sentence the request is answered with.
    pub fn message(&self) -> (r: &'static str)
        ensures
            r@ == refusal_text(*self),
    {
        match self {
            AuthRefusal::MissingToken => "missing bearer token",
            AuthRefusal::InvalidToken => "invalid token",
            AuthRefusal::UnrepresentableIdentity => "unrepresentable identity",
        }
    }
}

/// What a valid token says.
#[derive(Debug)]
pub struct Claims {
    pub sub: String,
    pub permissions: Vec<String>,
}

/// The values of the two internal headers.
#[derive(Debug)]
pub struct IdentityHeaders {
    pub caller: String,
    pub perms: String,
}

/// Whether headers carry an identity: the subject as it is, and the permissions in order, joined with
/// commas.
pub open spec fn carries(h: IdentityHeaders, claims: Claims) -> bool {
    &&& h.caller@ == claims.sub@
    &&& exists|sorted: Seq<Seq<char>>|
        in_text_order(sorted) && sorted.to_multiset() == views(claims.permissions@).to_multiset()
            && h.perms@ == #[trigger] joined(sorted, ","@)
}

/// Lets a request in on what the validation of its token found: the internal headers to set, or why
/// not. `validated` is absent where the request carried no token.
pub fn a2a_auth(validated: Option<Option<Claims>>) -> (r: Result<IdentityHeaders, AuthRefusal>)
    ensures
        match validated {
            None => r == Err::<IdentityHeaders, AuthRefusal>(AuthRefusal::MissingToken),
            Some(None) => r == Err::<IdentityHeaders, AuthRefusal>(AuthRefusal::InvalidToken),
            Some(Some(claims)) => match r {
                Ok(h) => carries(h, claims) && is_header_value(h.caller@) && is_header_value(
                    h.perms@,
                ),
                Err(e) => e == AuthRefusal::UnrepresentableIdentity && (!is_header_value(
                    claims.sub@,
                ) || forall|h: IdentityHeaders| #[trigger]
                    carries(h, claims) ==> !is_header_value(h.perms@)),
            },
        },
{
    match validated {
        None => Err(AuthRefusal::MissingToken),
        Some(None) => Err(AuthRefusal::InvalidToken),
        Some(Some(claims)) => {
            let ghost granted = views(claims.permissions@);
            let ghost given = claims;
            let sorted: Vec<String> = sort_texts(claims.permissions);
            let perms: String = text::join(&sorted, ",");
            let headers = IdentityHeaders { caller: claims.sub, perms };
            assert(in_text_order(views(sorted@)) && headers.perms@ == joined(
                views(sorted@),
                ","@,
            ));
            assert(carries(headers, given));
            proof {
                assert forall|h: IdentityHeaders| #[trigger] carries(h, given) implies h.perms@
                    == headers.perms@ by {
                    let other = choose|other: Seq<Seq<char>>|
                        in_text_order(other) && other.to_multiset() == granted.to_multiset()
                            && h.perms@ == #[trigger] joined(other, ","@);
                    lemma_one_order(views(sorted@), other);
                }
            }
            if net::header_value_ok(headers.caller.as_str()) && net::header_value_ok(
                headers.perms.as_str(),
            ) {
                Ok(headers)
            } else {
                Err(AuthRefusal::UnrepresentableIdentity)
            }
        },
    }
}

/// The permissions a header value grants: its pieces between commas, empty ones aside.
pub open spec fn granted(perms: Option<Seq<char>>) -> Seq<Seq<char>> {
    match perms {
        Some(p) => pieces(p, ',').filter(|s: Seq<char>| s.len() > 0),
        None => Seq::empty(),
    }
}

/// The error of a request that reached a handler without an identity.
pub open spec fn no_caller() -> ErrorView {
    error_view(ErrorKind::Internal, "a2a: missing authenticated caller"@)
}

/// The caller, read off the internal headers.
pub fn caller(id: Option<&str>, perms: Option<&str>) -> (r: Result<CallerCtx, A2aError>)
    ensures
        match r {
            Ok(c) => id is Some && id->0@.len() > 0 && c.id@ == id->0@ && views(c.perms@)
                == granted(opt_str_view(perms)),
            Err(e) => (id is None || id->0@.len() == 0) && e@ == no_caller(),
        },
{
    let name: &str = match id {
        Some(name) => name,
        None => return Err(
            A2aError::new(ErrorKind::Internal, "a2a: missing authenticated caller"),
        ),
    };
    if name.is_empty() {
        return Err(A2aError::new(ErrorKind::Internal, "a2a: missing authenticated caller"));
    }
    let mut kept: Vec<String> = Vec::new();
    assert(views(kept@) =~= Seq::empty());
    if let Some(p) = perms {
        let parts: Vec<String> = text::split(p, ',');
        let ghost p_fn = |s: Seq<char>| s.len() > 0;
        let ghost all = views(parts@);
        let mut i: usize = 0;
        proof {
            reveal(Seq::filter);
            assert(all.take(0) =~= Seq::empty());
        }
        while i < parts.len()
            invariant
                i <= parts@.len(),
                all == views(parts@),
                p_fn == (|s: Seq<char>| s.len() > 0),
                views(kept@) == all.take(i as int).filter(p_fn),
            decreases parts@.len() - i,
        {
            let ghost before = kept@;
            proof {
                reveal(Seq::filter);
                assert(all.take(i + 1).drop_last() =~= all.take(i as int));
                assert(all.take(i + 1).last() == parts@[i as int]@);
            }
            if !parts[i].as_str().is_empty() {
                kept.push(parts[i].clone());
                assert(views(kept@) =~= views(before).push(parts@[i as int]@));
            }
            i = i + 1;
        }
        assert(all.take(i as int) =~= all);
    }
    Ok(CallerCtx { id: name.to_owned(), perms: kept })
}

/// Whether a permission can travel in a header: it is not empty and holds no comma.
pub open spec fn is_permission(s: Seq<char>) -> bool {
    s.len() > 0 && !s.contains(',')
}

proof fn lemma_no_sep_position(s: Seq<char>, sep: char, from: int)
    requires
        0 <= from <= s.len(),
        forall|i: int| from <= i < s.len() ==> s[i] != sep,
    ensures
        position_from(s, sep, from) == s.len(),
    decreases s.len() - from,
{
    if from < s.len() {
        lemma_no_sep_position(s, sep, from + 1);
    }
}

proof fn lemma_position_unique(s: Seq<char>, sep: char, from: int, at: int)
    requires
        0 <= from <= at < s.len(),
        s[at] == sep,
        forall|i: int| from <= i < at ==> s[i] != sep,
    ensures
        position_from(s, sep, from) == at,
    decreases at - from,
{
    if from < at {
        lemma_position_unique(s, sep, from + 1, at);
    }
}

proof fn lemma_pieces_append(a: Seq<char>, b: Seq<char>, sep: char)
    requires
        !b.contains(sep),
    ensures
        pieces(a + seq![sep] + b, sep) == pieces(a, sep).push(b),
    decreases a.len(),
{
    let whole = a + seq![sep] + b;
    let at = position_from(a, sep, 0);
    lemma_position_bounds(a, sep, 0);
    if at >= a.len() {
        assert forall|i: int| 0 <= i < a.len() implies whole[i] != sep by {
            assert(whole[i] == a[i]);
        }
        lemma_position_unique(whole, sep, 0, a.len() as int);
        assert(whole.subrange(0, a.len() as int) =~= a);
        let tail = whole.subrange(a.len() as int + 1, whole.len() as int);
        assert(tail =~= b);
        assert forall|i: int| 0 <= i < b.len() implies b[i] != sep by {
            assert(b.contains(b[i]));
        }
        lemma_no_sep_position(b, sep, 0);
        assert(pieces(b, sep) == seq![b]);
        assert(pieces(whole, sep) =~= seq![a] + seq![b]);
        assert(pieces(a, sep).push(b) =~= seq![a] + seq![b]);
    } else {
        assert forall|i: int| 0 <= i < at implies whole[i] != sep by {
            assert(whole[i] == a[i]);
        }
        assert(whole[at] == a[at]);
        lemma_position_unique(whole, sep, 0, at);
        let rest = a.subrange(at + 1, a.len() as int);
        assert(whole.subrange(0, at) =~= a.subrange(0, at));
        assert(whole.subrange(at + 1, whole.len() as int) =~= rest + seq![sep] + b);
        lemma_pieces_append(rest, b, sep);
        assert(pieces(whole, sep) =~= pieces(a, sep).push(b));
    }
}

proof fn lemma_pieces_of_joined(perms: Seq<Seq<char>>)
    requires
        perms.len() > 0,
        forall|i: int| 0 <= i < perms.len() ==> is_permission(#[trigger] perms[i]),
    ensures
        pieces(joined(perms, seq![',']), ',') == perms,
    decreases perms.len(),
{
    let last = perms.last();
    assert(is_permission(perms[perms.len() - 1]));
    assert forall|i: int| 0 <= i < last.len() implies last[i] != ',' by {
        assert(last.contains(last[i]));
    }
    if perms.len() == 1 {
        lemma_no_sep_position(last, ',', 0);
        assert(pieces(last, ',') =~= perms);
    } else {
        let init = perms.drop_last();
        assert forall|i: int| 0 <= i < init.len() implies is_permission(#[trigger] init[i]) by {
            assert(init[i] == perms[i]);
        }
        lemma_pieces_of_joined(init);
        lemma_pieces_append(joined(init, seq![',']), last, ',');
        assert(init.push(last) =~= perms);
    }
}

proof fn lemma_filter_all(s: Seq<Seq<char>>, p: spec_fn(Seq<char>) -> bool)
    requires
        forall|i: int| 0 <= i < s.len() ==> p(#[trigger] s[i]),
    ensures
        s.filter(p) == s,
    decreases s.len(),
{
    reveal(Seq::filter);
    if s.len() > 0 {
        let init = s.drop_last();
        assert forall|i: int| 0 <= i < init.len() implies p(#[trigger] init[i]) by {
            assert(init[i] == s[i]);
        }
        lemma_filter_all(init, p);
        assert(p(s[s.len() - 1]));
        assert(init.push(s.last()) =~= s);
    } else {
        assert(s.filter(p) =~= s);
    }
}

/// A handler sees exactly the permissions that the token carried: reading the joined header gives them
/// back, none lost, split or added.
pub proof fn law_permissions_survive_the_header(perms: Seq<Seq<char>>)
    requires
        forall|i: int| 0 <= i < perms.len() ==> is_permission(#[trigger] perms[i]),
    ensures
        granted(Some(joined(perms, ","@))) == perms,
{
    reveal_strlit(",");
    assert(","@ =~= seq![',']);
    let p = |s: Seq<char>| s.len() > 0;
    if perms.len() == 0 {
        let empty = Seq::<char>::empty();
        assert(joined(perms, ","@) == empty);
        assert(pieces(empty, ',') =~= seq![empty]);
        reveal(Seq::filter);
        assert(seq![empty].drop_last() =~= Seq::<Seq<char>>::empty());
        assert(Seq::<Seq<char>>::empty().filter(p) =~= Seq::<Seq<char>>::empty());
        assert(seq![empty].filter(p) =~= Seq::<Seq<char>>::empty());
        assert(perms =~= Seq::<Seq<char>>::empty());
    } else {
        lemma_pieces_of_joined(perms);
        assert forall|i: int| 0 <= i < perms.len() implies p(#[trigger] perms[i]) by {
            assert(is_permission(perms[i]));
        }
        lemma_filter_all(perms, p);
    }
}

} // verus!
