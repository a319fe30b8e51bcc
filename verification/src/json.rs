//! The document-text toolkit under the metadata store: escaping of string
//! values, the scanner that reads a quoted value back, and literal
//! matching at a position.  The metadata document is the library's own
//! format; these functions define it character by character.

use vstd::prelude::*;

use crate::text::after_prefix;

verus! {

/// Relies on String::push: appends exactly the one character.
#[verifier::external_body]
pub fn push_char(s: &mut String, c: char)
    ensures
        final(s)@ == old(s)@ + seq![c],
{
    s.push(c);
}

/// How one character is written inside a quoted value: quotes,
/// backslashes, newlines, carriage returns and tabs are escaped, every
/// other character stands for itself.
pub open spec fn esc_char(c: char) -> Seq<char> {
    if c == '"' {
        seq!['\\', '"']
    } else if c == '\\' {
        seq!['\\', '\\']
    } else if c == '\n' {
        seq!['\\', 'n']
    } else if c == '\r' {
        seq!['\\', 'r']
    } else if c == '\t' {
        seq!['\\', 't']
    } else {
        seq![c]
    }
}

/// The escaped form of a whole value.
pub open spec fn esc(s: Seq<char>) -> Seq<char>
    decreases s.len(),
{
    if s.len() == 0 {
        s
    } else {
        esc_char(s[0]) + esc(s.skip(1))
    }
}

pub proof fn lemma_esc_snoc(s: Seq<char>, c: char)
    ensures
        esc(s.push(c)) =~= esc(s) + esc_char(c),
    decreases s.len(),
{
    if s.len() == 0 {
        assert(s.push(c)[0] == c);
        assert(s.push(c).skip(1) =~= Seq::<char>::empty());
        assert(esc(s.push(c)) =~= esc_char(c) + esc(Seq::<char>::empty()));
    } else {
        assert(s.push(c)[0] == s[0]);
        assert(s.push(c).skip(1) =~= s.skip(1).push(c));
        lemma_esc_snoc(s.skip(1), c);
        assert(esc_char(s[0]) + (esc(s.skip(1)) + esc_char(c)) =~= (esc_char(s[0]) + esc(
            s.skip(1),
        )) + esc_char(c));
    }
}

/// The character an escape sequence `\x` stands for, if `x` is a
/// recognized escape.
pub open spec fn unesc_char(c: char) -> Option<char> {
    if c == '"' {
        Some('"')
    } else if c == '\\' {
        Some('\\')
    } else if c == 'n' {
        Some('\n')
    } else if c == 'r' {
        Some('\r')
    } else if c == 't' {
        Some('\t')
    } else {
        None
    }
}

/// Reads a quoted value from the front of `s` up to and including its
/// closing quote: the value read and what follows the quote, or `None`
/// when the text is not a well-formed value (an unterminated value, an
/// unrecognized escape, or a raw control character that the writer always
/// escapes).
pub open spec fn scan_string(s: Seq<char>) -> Option<(Seq<char>, Seq<char>)>
    decreases s.len(),
{
    if s.len() == 0 {
        None
    } else if s[0] == '"' {
        Some((Seq::<char>::empty(), s.skip(1)))
    } else if s[0] == '\\' {
        if s.len() >= 2 {
            match unesc_char(s[1]) {
                Some(c) => match scan_string(s.skip(2)) {
                    Some(p) => Some((seq![c] + p.0, p.1)),
                    None => None,
                },
                None => None,
            }
        } else {
            None
        }
    } else if s[0] == '\n' || s[0] == '\r' || s[0] == '\t' {
        None
    } else {
        match scan_string(s.skip(1)) {
            Some(p) => Some((seq![s[0]] + p.0, p.1)),
            None => None,
        }
    }
}

/// Scanning an escaped value followed by its closing quote recovers the
/// value and leaves exactly what follows the quote.
pub proof fn lemma_scan_esc(v: Seq<char>, rest: Seq<char>)
    ensures
        scan_string(esc(v) + seq!['"'] + rest) == Some((v, rest)),
    decreases v.len(),
{
    let s = esc(v) + seq!['"'] + rest;
    if v.len() == 0 {
        assert(s =~= seq!['"'] + rest);
        assert(s[0] == '"');
        assert(s.skip(1) =~= rest);
        assert(scan_string(s) == Some((Seq::<char>::empty(), rest)));
        assert(v =~= Seq::<char>::empty());
    } else {
        let c = v[0];
        let v1 = v.skip(1);
        lemma_scan_esc(v1, rest);
        assert(esc(v) =~= esc_char(c) + esc(v1));
        let s1 = esc(v1) + seq!['"'] + rest;
        if c == '"' || c == '\\' || c == '\n' || c == '\r' || c == '\t' {
            assert(s[0] == '\\');
            assert(s.len() >= 2);
            assert(unesc_char(s[1]) == Some(c));
            assert(s.skip(2) =~= s1);
            assert(seq![c] + v1 =~= v);
        } else {
            assert(s[0] == c);
            assert(s.skip(1) =~= s1);
            assert(seq![c] + v1 =~= v);
        }
    }
}

/// Appends the escaped form of `s` to `out`.
pub fn append_escaped(out: &mut String, s: &str)
    ensures
        final(out)@ == old(out)@ + esc(s@),
{
    let len = s.unicode_len();
    let mut i: usize = 0;
    proof {
        assert(s@.take(0) =~= Seq::<char>::empty());
        assert(esc(Seq::<char>::empty()) =~= Seq::<char>::empty());
        assert(old(out)@ + Seq::<char>::empty() =~= old(out)@);
    }
    while i < len
        invariant
            0 <= i <= len,
            len == s@.len(),
            out@ == old(out)@ + esc(s@.take(i as int)),
        decreases len - i,
    {
        let c = s.get_char(i);
        proof {
            assert(s@.take(i + 1) =~= s@.take(i as int).push(s@[i as int]));
            lemma_esc_snoc(s@.take(i as int), s@[i as int]);
        }
        if c == '"' {
            out.append("\\\"");
            proof {
                reveal_strlit("\\\"");
                assert("\\\""@ =~= esc_char('"'));
            }
        } else if c == '\\' {
            out.append("\\\\");
            proof {
                reveal_strlit("\\\\");
                assert("\\\\"@ =~= esc_char('\\'));
            }
        } else if c == '\n' {
            out.append("\\n");
            proof {
                reveal_strlit("\\n");
                assert("\\n"@ =~= esc_char('\n'));
            }
        } else if c == '\r' {
            out.append("\\r");
            proof {
                reveal_strlit("\\r");
                assert("\\r"@ =~= esc_char('\r'));
            }
        } else if c == '\t' {
            out.append("\\t");
            proof {
                reveal_strlit("\\t");
                assert("\\t"@ =~= esc_char('\t'));
            }
        } else {
            push_char(out, c);
            proof {
                assert(seq![c] =~= esc_char(c));
            }
        }
        proof {
            assert(out@ =~= old(out)@ + esc(s@.take(i + 1)));
        }
        i += 1;
    }
    proof {
        assert(s@.take(len as int) =~= s@);
    }
}

/// Decides [`unesc_char`].
fn unescape_char(c: char) -> (r: Option<char>)
    ensures
        r == unesc_char(c),
{
    if c == '"' {
        Some('"')
    } else if c == '\\' {
        Some('\\')
    } else if c == 'n' {
        Some('\n')
    } else if c == 'r' {
        Some('\r')
    } else if c == 't' {
        Some('\t')
    } else {
        None
    }
}

/// Reads a quoted value starting at `from`, as [`scan_string`] describes:
/// the value and the index just past its closing quote.
pub fn scan_value(s: &str, from: usize) -> (r: Option<(String, usize)>)
    requires
        from <= s@.len(),
    ensures
        match r {
            Some(p) => from <= p.1 <= s@.len() && scan_string(s@.skip(from as int)) == Some(
                (p.0@, s@.skip(p.1 as int)),
            ),
            None => scan_string(s@.skip(from as int)) is None,
        },
{
    let len = s.unicode_len();
    let mut out = String::new();
    let mut i: usize = from;
    proof {
        assert(out@ =~= Seq::<char>::empty());
    }
    loop
        invariant
            from <= i <= len,
            len == s@.len(),
            match scan_string(s@.skip(i as int)) {
                Some(p) => scan_string(s@.skip(from as int)) == Some((out@ + p.0, p.1)),
                None => scan_string(s@.skip(from as int)) is None,
            },
        decreases len - i,
    {
        if i == len {
            return None;
        }
        let c = s.get_char(i);
        if c == '"' {
            proof {
                assert(s@.skip(i as int).skip(1) =~= s@.skip(i + 1));
                assert(out@ + Seq::<char>::empty() =~= out@);
            }
            return Some((out, i + 1));
        }
        if c == '\\' {
            if i + 1 == len {
                return None;
            }
            let c2 = s.get_char(i + 1);
            match unescape_char(c2) {
                None => {
                    return None;
                },
                Some(d) => {
                    let ghost prev = out@;
                    push_char(&mut out, d);
                    proof {
                        let s0 = s@.skip(i as int);
                        assert(s0[0] == '\\' && s0.len() >= 2 && s0[1] == c2);
                        assert(s0.skip(2) =~= s@.skip(i + 2));
                        if scan_string(s@.skip(i + 2)) is Some {
                            let p = scan_string(s@.skip(i + 2)).unwrap();
                            assert(scan_string(s0) == Some((seq![d] + p.0, p.1)));
                            assert(prev + (seq![d] + p.0) =~= out@ + p.0);
                        }
                    }
                    i += 2;
                },
            }
        } else if c == '\n' || c == '\r' || c == '\t' {
            return None;
        } else {
            let ghost prev = out@;
            push_char(&mut out, c);
            proof {
                let s0 = s@.skip(i as int);
                assert(s0[0] == c);
                assert(s0.skip(1) =~= s@.skip(i + 1));
                if scan_string(s@.skip(i + 1)) is Some {
                    let p = scan_string(s@.skip(i + 1)).unwrap();
                    assert(scan_string(s0) == Some((seq![c] + p.0, p.1)));
                    assert(prev + (seq![c] + p.0) =~= out@ + p.0);
                }
            }
            i += 1;
        }
    }
}

/// Matches `lit` at position `from` of `s`: the index just past the match,
/// as [`after_prefix`] describes on the suffix.
pub fn expect_lit(s: &str, from: usize, lit: &str) -> (r: Option<usize>)
    requires
        from <= s@.len(),
    ensures
        match r {
            Some(j) => from <= j <= s@.len() && after_prefix(s@.skip(from as int), lit@) == Some(
                s@.skip(j as int),
            ),
            None => after_prefix(s@.skip(from as int), lit@) is None,
        },
{
    let len = s.unicode_len();
    let llen = lit.unicode_len();
    if llen > len - from {
        return None;
    }
    let mut i: usize = 0;
    while i < llen
        invariant
            0 <= i <= llen,
            from + llen <= len,
            len == s@.len(),
            llen == lit@.len(),
            forall|j: int| 0 <= j < i ==> s@[from + j] == lit@[j],
        decreases llen - i,
    {
        if s.get_char(from + i) != lit.get_char(i) {
            proof {
                let tail = s@.skip(from as int);
                assert(tail.take(llen as int)[i as int] != lit@[i as int]);
            }
            return None;
        }
        i += 1;
    }
    proof {
        let tail = s@.skip(from as int);
        assert(tail.take(llen as int) =~= lit@);
        assert(tail.skip(llen as int) =~= s@.skip(from + llen));
    }
    Some(from + llen)
}

} // verus!
