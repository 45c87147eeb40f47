//! The coordinator protocol rules: request paths, response interpretation,
//! and the token-list body format.
//!
//! The application performs the HTTP exchange itself and hands the status
//! code and body text to the functions here; they decide what the response
//! means. A fetch succeeds exactly on status 200, and its body is a
//! newline-separated list of task tokens (an empty body means zero tokens).
//! A submission is acknowledged exactly by status 204; on anything else the
//! result is kept and resubmitted later.

use vstd::prelude::*;

use crate::decimal::spec_decimal;
use crate::decimal::u32_to_decimal;

verus! {

/// Why a fetch yielded no tokens. Every variant is transient: the caller
/// backs off and retries the same request on a later cycle.
#[derive(Clone, Copy, Debug, PartialEq, Eq, Structural)]
pub enum FetchError {
    /// The request never produced a response.
    Transport,
    /// The response carried this status, which is not 200.
    Status(u16),
}

/// Why a submission was not acknowledged. Every variant is transient: the
/// outcome is retained and resubmitted verbatim on a later cycle.
#[derive(Clone, Copy, Debug, PartialEq, Eq, Structural)]
pub enum SubmitError {
    /// The request never produced a response.
    Transport,
    /// The response carried this status, which is not 204.
    Status(u16),
}

/// The header that carries the task token of a submitted result.
pub fn seed_header_name() -> (r: &'static str)
    ensures
        r@ == "SpicyGarden-Seed"@,
{
    "SpicyGarden-Seed"
}

/// The request path that asks the coordinator for up to `count` new task
/// tokens.
pub fn fetch_path(base: &str, client_key: &str, count: u32) -> (r: String)
    ensures
        r@ == base@ + "/assign_seeds/"@ + client_key@ + "/"@ + spec_decimal(count as nat),
{
    let mut s = base.to_owned();
    s.append("/assign_seeds/");
    s.append(client_key);
    s.append("/");
    let d = u32_to_decimal(count);
    s.append(d.as_str());
    proof {
        assert(s@ =~= base@ + "/assign_seeds/"@ + client_key@ + "/"@ + spec_decimal(
            count as nat,
        ));
    }
    s
}

/// The request path that reports one resolved task's result.
pub fn submit_path(base: &str, client_key: &str) -> (r: String)
    ensures
        r@ == base@ + "/submit_result/"@ + client_key@,
{
    let mut s = base.to_owned();
    s.append("/submit_result/");
    s.append(client_key);
    proof {
        assert(s@ =~= base@ + "/submit_result/"@ + client_key@);
    }
    s
}

/// Splitting a text at every newline, keeping empty segments: one segment
/// more than there are newlines.
pub open spec fn spec_split_lines(s: Seq<char>) -> Seq<Seq<char>>
    decreases s.len(),
{
    if s.len() == 0 {
        seq![Seq::<char>::empty()]
    } else if s[0] == '\n' {
        seq![Seq::<char>::empty()] + spec_split_lines(s.drop_first())
    } else {
        let rest = spec_split_lines(s.drop_first());
        seq![seq![s[0]] + rest[0]] + rest.drop_first()
    }
}

/// The token list a fetch-response body stands for: nothing at all when the
/// body is empty, otherwise the newline-separated segments, kept verbatim.
pub open spec fn spec_parse_tokens(s: Seq<char>) -> Seq<Seq<char>> {
    if s.len() == 0 {
        Seq::<Seq<char>>::empty()
    } else {
        spec_split_lines(s)
    }
}

/// The texts of a vector of tokens.
pub open spec fn views_of(tokens: Seq<String>) -> Seq<Seq<char>> {
    tokens.map_values(|t: String| t@)
}

proof fn lemma_split_lines_nonempty(s: Seq<char>)
    ensures
        spec_split_lines(s).len() >= 1,
    decreases s.len(),
{
    if s.len() > 0 {
        lemma_split_lines_nonempty(s.drop_first());
    }
}

/// Appending one character either opens a fresh empty segment (a newline)
/// or extends the last segment (anything else).
proof fn lemma_split_lines_push(s: Seq<char>, c: char)
    ensures
        c == '\n' ==> spec_split_lines(s.push(c)) == spec_split_lines(s).push(
            Seq::<char>::empty(),
        ),
        c != '\n' ==> spec_split_lines(s.push(c)) == spec_split_lines(s).update(
            spec_split_lines(s).len() - 1,
            spec_split_lines(s).last().push(c),
        ),
    decreases s.len(),
{
    lemma_split_lines_nonempty(s);
    if s.len() == 0 {
        assert(s.push(c)[0] == c);
        assert(s.push(c).drop_first() =~= Seq::<char>::empty());
        assert(s =~= Seq::<char>::empty());
        assert(spec_split_lines(Seq::<char>::empty()) == seq![Seq::<char>::empty()]);
        if c == '\n' {
            assert(spec_split_lines(s.push(c)) =~= spec_split_lines(s).push(
                Seq::<char>::empty(),
            ));
        } else {
            assert(seq![c] + Seq::<char>::empty() =~= Seq::<char>::empty().push(c));
            assert(spec_split_lines(s.push(c)) =~= spec_split_lines(s).update(
                0,
                spec_split_lines(s).last().push(c),
            ));
        }
    } else {
        let t = s.drop_first();
        lemma_split_lines_nonempty(t);
        assert(s.push(c)[0] == s[0]);
        assert(s.push(c).drop_first() =~= t.push(c));
        lemma_split_lines_push(t, c);
        let st = spec_split_lines(t);
        if s[0] == '\n' {
            if c == '\n' {
                assert(seq![Seq::<char>::empty()] + st.push(Seq::<char>::empty()) =~= (
                seq![Seq::<char>::empty()] + st).push(Seq::<char>::empty()));
            } else {
                assert(seq![Seq::<char>::empty()] + st.update(
                    st.len() - 1,
                    st.last().push(c),
                ) =~= (seq![Seq::<char>::empty()] + st).update(
                    st.len() as int,
                    st.last().push(c),
                ));
                assert((seq![Seq::<char>::empty()] + st).last() == st.last());
            }
        } else {
            let first = seq![s[0]] + st[0];
            if c == '\n' {
                let rest2 = st.push(Seq::<char>::empty());
                assert(rest2[0] == st[0]);
                assert(rest2.drop_first() =~= st.drop_first().push(Seq::<char>::empty()));
                assert(seq![first] + st.drop_first().push(Seq::<char>::empty()) =~= (
                seq![first] + st.drop_first()).push(Seq::<char>::empty()));
            } else {
                let k = st.len() - 1;
                let rest2 = st.update(k, st.last().push(c));
                if st.len() == 1 {
                    assert(rest2[0] == st[0].push(c));
                    assert(rest2.drop_first() =~= st.drop_first());
                    assert(seq![s[0]] + st[0].push(c) =~= (seq![s[0]] + st[0]).push(c));
                    assert(spec_split_lines(s.push(c)) =~= spec_split_lines(s).update(
                        0,
                        spec_split_lines(s).last().push(c),
                    ));
                } else {
                    assert(rest2[0] == st[0]);
                    assert(rest2.drop_first() =~= st.drop_first().update(
                        k - 1,
                        st.last().push(c),
                    ));
                    assert((seq![first] + st.drop_first()).last() == st.last());
                    assert(seq![first] + st.drop_first().update(k - 1, st.last().push(c)) =~= (
                    seq![first] + st.drop_first()).update(k, st.last().push(c)));
                }
            }
        }
    }
}

/// Parses a fetch-response body into its task tokens: the newline-separated
/// segments of the body, verbatim, and no tokens at all for an empty body.
pub fn parse_token_list(body: &str) -> (tokens: Vec<String>)
    ensures
        views_of(tokens@) == spec_parse_tokens(body@),
{
    let len = body.unicode_len();
    if len == 0 {
        let tokens: Vec<String> = Vec::new();
        proof {
            assert(views_of(tokens@) =~= spec_parse_tokens(body@));
        }
        return tokens;
    }
    let mut tokens: Vec<String> = Vec::new();
    let mut start: usize = 0;
    let mut i: usize = 0;
    proof {
        assert(body@.subrange(0, 0) =~= Seq::<char>::empty());
        assert(spec_split_lines(body@.subrange(0, 0)) =~= seq![Seq::<char>::empty()]);
        assert(views_of(tokens@).push(body@.subrange(0, 0)) =~= seq![Seq::<char>::empty()]);
    }
    while i < len
        invariant
            len == body@.len(),
            start <= i <= len,
            spec_split_lines(body@.subrange(0, i as int)) == views_of(tokens@).push(
                body@.subrange(start as int, i as int),
            ),
        decreases len - i,
    {
        let c = body.get_char(i);
        proof {
            lemma_split_lines_push(body@.subrange(0, i as int), body@[i as int]);
            assert(body@.subrange(0, i as int).push(body@[i as int]) =~= body@.subrange(
                0,
                i as int + 1,
            ));
        }
        if c == '\n' {
            let tok = body.substring_char(start, i).to_owned();
            proof {
                let ghost m = views_of(tokens@);
                let ghost seg = body@.subrange(start as int, i as int);
                assert(views_of(tokens@.push(tok)) =~= m.push(seg));
                assert(spec_split_lines(body@.subrange(0, i as int + 1)) =~= m.push(seg).push(
                    Seq::<char>::empty(),
                ));
                assert(body@.subrange(i as int + 1, i as int + 1) =~= Seq::<char>::empty());
            }
            tokens.push(tok);
            start = i + 1;
        } else {
            proof {
                let ghost m = views_of(tokens@);
                let ghost seg = body@.subrange(start as int, i as int);
                assert(m.push(seg).len() - 1 == m.len());
                assert(m.push(seg).last() == seg);
                assert(m.push(seg).update(m.len() as int, seg.push(body@[i as int])) =~= m.push(
                    seg.push(body@[i as int]),
                ));
                assert(seg.push(body@[i as int]) =~= body@.subrange(
                    start as int,
                    i as int + 1,
                ));
            }
        }
        i = i + 1;
    }
    let tok = body.substring_char(start, len).to_owned();
    proof {
        let ghost m = views_of(tokens@);
        let ghost seg = body@.subrange(start as int, len as int);
        assert(views_of(tokens@.push(tok)) =~= m.push(seg));
        assert(body@.subrange(0, len as int) =~= body@);
    }
    tokens.push(tok);
    tokens
}

/// What a fetch response means. The fetch succeeded if and only if the
/// status is 200; then the body's newline-separated segments are the new
/// task tokens. Any other status is the transient error that carries it.
pub fn interpret_fetch_response(status: u16, body: &str) -> (r: Result<Vec<String>, FetchError>)
    ensures
        r is Ok <==> status == 200,
        r matches Ok(tokens) ==> views_of(tokens@) == spec_parse_tokens(body@),
        r matches Err(e) ==> e == FetchError::Status(status),
{
    if status == 200 {
        Ok(parse_token_list(body))
    } else {
        Err(FetchError::Status(status))
    }
}

/// What a submit response means. The submission is acknowledged if and only
/// if the status is 204 ("no content"); any other status is the transient
/// error that carries it, and the caller keeps the result for a later cycle.
pub fn interpret_submit_response(status: u16) -> (r: Result<(), SubmitError>)
    ensures
        r is Ok <==> status == 204,
        r matches Err(e) ==> e == SubmitError::Status(status),
{
    if status == 204 {
        Ok(())
    } else {
        Err(SubmitError::Status(status))
    }
}

} // verus!
