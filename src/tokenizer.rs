//! Splits source text into tokens; a quoted segment becomes one token that
//! carries the string-literal marker.
use crate::text::{is_space, is_space_char, push_char};
use vstd::prelude::*;
use vstd::string::*;

verus! {

/// The prefix that marks a token as a string literal.
pub open spec fn str_marker() -> Seq<char> {
    seq!['S', 'T', 'R', ':']
}

/// The tokenizer's state after a prefix of the input: tokens emitted so far,
/// the accumulator, and whether the scan is inside quotes.
pub struct ScanState {
    pub toks: Seq<Seq<char>>,
    pub cur: Seq<char>,
    pub quoted: bool,
}

/// One character of the scan.
pub open spec fn scan_char(st: ScanState, c: char) -> ScanState {
    if c == '"' {
        if st.quoted {
            ScanState { toks: st.toks.push(str_marker() + st.cur), cur: seq![], quoted: false }
        } else {
            ScanState { toks: st.toks, cur: st.cur, quoted: true }
        }
    } else if st.quoted {
        ScanState { toks: st.toks, cur: st.cur.push(c), quoted: true }
    } else if is_space(c) {
        if st.cur.len() > 0 {
            ScanState { toks: st.toks.push(st.cur), cur: seq![], quoted: false }
        } else {
            st
        }
    } else {
        ScanState { toks: st.toks, cur: st.cur.push(c), quoted: false }
    }
}

/// The scan state after `s`, starting from `st`.
pub open spec fn scan_from(st: ScanState, s: Seq<char>) -> ScanState
    decreases s.len(),
{
    if s.len() == 0 {
        st
    } else {
        scan_char(scan_from(st, s.drop_last()), s.last())
    }
}

pub open spec fn initial_scan() -> ScanState {
    ScanState { toks: seq![], cur: seq![], quoted: false }
}

/// The scan state after all of `s`.
pub open spec fn scan(s: Seq<char>) -> ScanState {
    scan_from(initial_scan(), s)
}

/// The tokens of `s`: a pending plain token is flushed at the end, an
/// unterminated quoted segment is dropped.
pub open spec fn tokens_of(s: Seq<char>) -> Seq<Seq<char>> {
    let st = scan(s);
    if !st.quoted && st.cur.len() > 0 {
        st.toks.push(st.cur)
    } else {
        st.toks
    }
}

/// Splits `input` into tokens: whitespace separates plain tokens, and a
/// double-quoted segment becomes one token prefixed with `STR:`.
pub fn tokenize(input: &str) -> (r: Vec<String>)
    ensures
        r@.map_values(|t: String| t@) == tokens_of(input@),
{
    let n = input.unicode_len();
    let mut tokens: Vec<String> = Vec::new();
    let mut current = String::new();
    let mut in_string = false;
    let mut i: usize = 0;
    while i < n
        invariant
            n == input@.len(),
            i <= n,
            tokens@.len() == scan(input@.take(i as int)).toks.len(),
            forall|j: int|
                0 <= j < tokens@.len() ==> #[trigger] tokens@[j]@ == scan(
                    input@.take(i as int),
                ).toks[j],
            current@ == scan(input@.take(i as int)).cur,
            in_string == scan(input@.take(i as int)).quoted,
        decreases n - i,
    {
        let ch = input.get_char(i);
        proof {
            assert(input@.take(i + 1).drop_last() =~= input@.take(i as int));
        }
        if ch == '"' {
            if in_string {
                let mut t = String::from_str("STR:");
                proof {
                    reveal_strlit("STR:");
                }
                t.append(current.as_str());
                tokens.push(t);
                current = String::new();
            }
            in_string = !in_string;
        } else if in_string {
            push_char(&mut current, ch);
        } else if is_space_char(ch) {
            if current.unicode_len() > 0 {
                tokens.push(current);
                current = String::new();
            }
        } else {
            push_char(&mut current, ch);
        }
        i = i + 1;
    }
    proof {
        assert(input@.take(n as int) =~= input@);
    }
    if !in_string && current.unicode_len() > 0 {
        tokens.push(current);
    }
    proof {
        assert(tokens@.map_values(|t: String| t@) =~= tokens_of(input@));
    }
    tokens
}

/// Tokens joined with one space between neighbours.
pub open spec fn join(ws: Seq<Seq<char>>) -> Seq<char>
    decreases ws.len(),
{
    if ws.len() == 0 {
        seq![]
    } else if ws.len() == 1 {
        ws[0]
    } else {
        join(ws.drop_last()) + seq![' '] + ws.last()
    }
}

pub open spec fn quote_free(s: Seq<char>) -> bool {
    forall|i: int| 0 <= i < s.len() ==> #[trigger] s[i] != '"'
}

/// Characters that a plain token may hold: no whitespace and no quote.
pub open spec fn plain(s: Seq<char>) -> bool {
    forall|i: int| 0 <= i < s.len() ==> !is_space(#[trigger] s[i]) && s[i] != '"'
}

pub open spec fn word(w: Seq<char>) -> bool {
    w.len() > 0 && plain(w)
}

pub open spec fn clean(st: ScanState) -> bool {
    &&& !st.quoted
    &&& plain(st.cur)
    &&& forall|k: int| 0 <= k < st.toks.len() ==> word(#[trigger] st.toks[k])
}

proof fn lemma_scan_concat(st: ScanState, a: Seq<char>, b: Seq<char>)
    ensures
        scan_from(st, a + b) == scan_from(scan_from(st, a), b),
    decreases b.len(),
{
    if b.len() == 0 {
        assert(a + b =~= a);
    } else {
        assert((a + b).drop_last() =~= a + b.drop_last());
        assert((a + b).last() == b.last());
        lemma_scan_concat(st, a, b.drop_last());
    }
}

proof fn lemma_scan_clean(s: Seq<char>)
    requires
        quote_free(s),
    ensures
        clean(scan(s)),
    decreases s.len(),
{
    if s.len() > 0 {
        let p = s.drop_last();
        assert(quote_free(p)) by {
            assert forall|i: int| 0 <= i < p.len() implies p[i] != '"' by {
                assert(p[i] == s[i]);
            }
        }
        lemma_scan_clean(p);
        let st = scan(p);
        let c = s.last();
        assert(c == s[s.len() - 1]);
        let n = scan_char(st, c);
        if is_space(c) {
            if st.cur.len() > 0 {
                assert forall|k: int| 0 <= k < n.toks.len() implies word(#[trigger] n.toks[k]) by {
                    if k < st.toks.len() {
                        assert(n.toks[k] == st.toks[k]);
                    }
                }
                assert(plain(n.cur));
            }
        } else {
            assert forall|i: int| 0 <= i < n.cur.len() implies !is_space(#[trigger] n.cur[i])
                && n.cur[i] != '"' by {
                if i < st.cur.len() {
                    assert(n.cur[i] == st.cur[i]);
                }
            }
        }
    }
}

proof fn lemma_scan_plain(toks: Seq<Seq<char>>, cur: Seq<char>, w: Seq<char>)
    requires
        plain(w),
    ensures
        scan_from(ScanState { toks, cur, quoted: false }, w) == (ScanState {
            toks,
            cur: cur + w,
            quoted: false,
        }),
    decreases w.len(),
{
    if w.len() == 0 {
        assert(cur + w =~= cur);
    } else {
        let p = w.drop_last();
        assert(plain(p)) by {
            assert forall|i: int| 0 <= i < p.len() implies !is_space(#[trigger] p[i]) && p[i]
                != '"' by {
                assert(p[i] == w[i]);
            }
        }
        lemma_scan_plain(toks, cur, p);
        assert(w.last() == w[w.len() - 1]);
        assert((cur + p).push(w.last()) =~= cur + w);
    }
}

proof fn lemma_scan_join(ws: Seq<Seq<char>>)
    requires
        ws.len() > 0,
        forall|k: int| 0 <= k < ws.len() ==> word(#[trigger] ws[k]),
    ensures
        scan(join(ws)) == (ScanState { toks: ws.drop_last(), cur: ws.last(), quoted: false }),
    decreases ws.len(),
{
    if ws.len() == 1 {
        assert(word(ws[0]));
        lemma_scan_plain(seq![], seq![], ws[0]);
        assert(Seq::<char>::empty() + ws[0] =~= ws[0]);
        assert(ws.drop_last() =~= Seq::<Seq<char>>::empty());
    } else {
        let p = ws.drop_last();
        assert forall|k: int| 0 <= k < p.len() implies word(#[trigger] p[k]) by {
            assert(p[k] == ws[k]);
        }
        lemma_scan_join(p);
        let w = ws.last();
        assert(word(ws[ws.len() - 1]));
        let a = join(p);
        assert(join(ws) == a + seq![' '] + w);
        let s1 = scan(a);
        assert(s1 == (ScanState { toks: p.drop_last(), cur: p.last(), quoted: false }));
        lemma_scan_concat(initial_scan(), a, seq![' ']);
        assert(seq![' '].drop_last() =~= Seq::<char>::empty());
        assert(seq![' '].last() == ' ');
        assert(scan_from(s1, Seq::<char>::empty()) == s1);
        assert(scan_from(s1, seq![' ']) == scan_char(s1, ' '));
        assert(word(p[p.len() - 1]));
        assert(p.drop_last().push(p.last()) =~= p);
        let s2 = ScanState { toks: p, cur: Seq::<char>::empty(), quoted: false };
        assert(scan(a + seq![' ']) == s2);
        lemma_scan_concat(initial_scan(), a + seq![' '], w);
        lemma_scan_plain(p, Seq::<char>::empty(), w);
        assert(Seq::<char>::empty() + w =~= w);
    }
}

/// Tokenizing is idempotent on text without string literals: joining the
/// tokens of such a text with single spaces and tokenizing again gives the
/// same tokens.
pub proof fn lemma_tokenize_idempotent(s: Seq<char>)
    requires
        quote_free(s),
    ensures
        tokens_of(join(tokens_of(s))) == tokens_of(s),
{
    lemma_scan_clean(s);
    let ws = tokens_of(s);
    let st = scan(s);
    assert forall|k: int| 0 <= k < ws.len() implies word(#[trigger] ws[k]) by {
        if k < st.toks.len() {
            assert(ws[k] == st.toks[k]);
        }
    }
    if ws.len() > 0 {
        lemma_scan_join(ws);
        assert(word(ws[ws.len() - 1]));
        assert(ws.drop_last().push(ws.last()) =~= ws);
    } else {
        assert(join(ws) =~= Seq::<char>::empty());
    }
}

} // verus!
