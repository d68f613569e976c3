//! The `Cookie` header that authenticates requests to the site.

use vstd::prelude::*;

verus! {

/// One cookie as `name=value`.
pub open spec fn cookie_text(name: Seq<char>, value: Seq<char>) -> Seq<char> {
    name + seq!['='] + value
}

/// The cookies of `pairs` as one header value, joined by `;`.
pub open spec fn cookie_header_text(pairs: Seq<(Seq<char>, Seq<char>)>) -> Seq<char>
    decreases pairs.len(),
{
    if pairs.len() == 0 {
        Seq::empty()
    } else if pairs.len() == 1 {
        cookie_text(pairs[0].0, pairs[0].1)
    } else {
        cookie_header_text(pairs.drop_last()) + seq![';'] + cookie_text(
            pairs.last().0,
            pairs.last().1,
        )
    }
}

pub fn build_cookie(name: &str, value: &str) -> (r: String)
    ensures
        r@ == cookie_text(name@, value@),
{
    proof {
        reveal_strlit("=");
    }
    let mut r = name.to_string();
    r.append("=");
    r.append(value);
    r
}

/// The header value for the cookies `pairs`, in their order.
pub fn cookie_header(pairs: &Vec<(String, String)>) -> (r: String)
    ensures
        r@ == cookie_header_text(pairs@.map_values(|p: (String, String)| (p.0@, p.1@))),
{
    let ghost v = pairs@.map_values(|p: (String, String)| (p.0@, p.1@));
    let mut out = String::new();
    let mut i: usize = 0;
    proof {
        reveal_strlit(";");
        assert(";"@ =~= seq![';']);
    }
    while i < pairs.len()
        invariant
            i <= pairs@.len(),
            ";"@ == seq![';'],
            v == pairs@.map_values(|p: (String, String)| (p.0@, p.1@)),
            out@ == cookie_header_text(v.subrange(0, i as int)),
        decreases pairs.len() - i,
    {
        assert(v.subrange(0, i + 1).drop_last() =~= v.subrange(0, i as int));
        let one = build_cookie(pairs[i].0.as_str(), pairs[i].1.as_str());
        let ghost before = out@;
        if i > 0 {
            out.append(";");
        }
        out.append(one.as_str());
        proof {
            if i > 0 {
                assert(out@ =~= before + seq![';'] + one@);
            } else {
                assert(out@ =~= one@);
            }
        }
        i = i + 1;
    }
    assert(v.subrange(0, pairs@.len() as int) =~= v);
    out
}

} // verus!
