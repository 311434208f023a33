use vstd::prelude::*;

verus! {

/// Unicode `White_Space`, the set that `char::is_whitespace` tests.
pub open spec fn is_space(c: char) -> bool {
    let u = c as u32;
    (0x09 <= u && u <= 0x0d) || u == 0x20 || u == 0x85 || u == 0xa0 || u == 0x1680 || (0x2000
        <= u && u <= 0x200a) || u == 0x2028 || u == 0x2029 || u == 0x202f || u == 0x205f || u
        == 0x3000
}

/// Whether `c` separates tokens.
pub fn is_space_char(c: char) -> (r: bool)
    ensures
        r == is_space(c),
{
    let u = c as u32;
    (0x09 <= u && u <= 0x0d) || u == 0x20 || u == 0x85 || u == 0xa0 || u == 0x1680 || (0x2000
        <= u && u <= 0x200a) || u == 0x2028 || u == 0x2029 || u == 0x202f || u == 0x205f || u
        == 0x3000
}

/// Scanning `s` left to right: the tokens already closed, and the token still open.
pub open spec fn scan(s: Seq<char>) -> (Seq<Seq<char>>, Seq<char>)
    decreases s.len(),
{
    if s.len() == 0 {
        (seq![], seq![])
    } else {
        let (done, open) = scan(s.drop_last());
        let c = s.last();
        if is_space(c) {
            if open.len() > 0 {
                (done.push(open), seq![])
            } else {
                (done, open)
            }
        } else {
            (done, open.push(c))
        }
    }
}

/// The maximal runs of non-space characters of `s`, in order.
pub open spec fn tokens(s: Seq<char>) -> Seq<Seq<char>> {
    let (done, open) = scan(s);
    if open.len() > 0 {
        done.push(open)
    } else {
        done
    }
}

/// Splits `text` into its whitespace-separated tokens.
pub fn tokenize(text: &str) -> (r: Vec<String>)
    ensures
        r@.map_values(|t: String| t@) == tokens(text@),
{
    let n = text.unicode_len();
    let mut out: Vec<String> = Vec::new();
    let mut start: usize = 0;
    let mut i: usize = 0;
    while i < n
        invariant
            n == text@.len(),
            i <= n,
            start <= i,
            out@.map_values(|t: String| t@) == scan(text@.take(i as int)).0,
            text@.subrange(start as int, i as int) == scan(text@.take(i as int)).1,
        decreases n - i,
    {
        let c = text.get_char(i);
        proof {
            assert(text@.take(i + 1).drop_last() =~= text@.take(i as int));
            assert(text@.take(i + 1).last() == c);
        }
        if is_space_char(c) {
            if start < i {
                let t = String::from_str(text.substring_char(start, i));
                let ghost before = out@;
                out.push(t);
                proof {
                    assert(out@.map_values(|t: String| t@) =~= before.map_values(|t: String| t@).push(t@));
                }
            }
            start = i + 1;
            proof {
                assert(text@.subrange(i + 1, i + 1) =~= seq![]);
            }
        } else {
            proof {
                assert(text@.subrange(start as int, i + 1) =~= text@.subrange(start as int, i as int).push(c));
            }
        }
        i = i + 1;
    }
    proof {
        assert(text@.take(n as int) =~= text@);
    }
    if start < n {
        let t = String::from_str(text.substring_char(start, n));
        let ghost before = out@;
        out.push(t);
        proof {
            assert(out@.map_values(|t: String| t@) =~= before.map_values(|t: String| t@).push(t@));
        }
    }
    out
}

/// One transformation that a token of a command asks for.
#[derive(Clone, Copy, Debug, PartialEq, Eq, Structural)]
pub enum Operation {
    /// Mirror across the horizontal axis.
    Flip,
    /// Mirror across the vertical axis.
    Mirror,
    /// Reduce the palette by clustering.
    Quantize,
    /// Turn by 45 degrees on a transparent background.
    Rotate,
    /// Sharpen, then oversaturate.
    Fry,
    /// Content-aware shrink to half size, then back to the original size.
    LiquidRescale,
    /// A token that names no transformation.
    Unknown,
}

/// The operation that a token names: exact, case-sensitive match.
pub open spec fn op_of(t: Seq<char>) -> Operation {
    if t == "flip"@ {
        Operation::Flip
    } else if t == "mirror"@ {
        Operation::Mirror
    } else if t == "color"@ {
        Operation::Quantize
    } else if t == "rotate"@ {
        Operation::Rotate
    } else if t == "fry"@ {
        Operation::Fry
    } else if t == "liquid"@ {
        Operation::LiquidRescale
    } else {
        Operation::Unknown
    }
}

/// The recognized operations of a token sequence, in order; unknown tokens are left out.
pub open spec fn recognized(ts: Seq<Seq<char>>) -> Seq<Operation>
    decreases ts.len(),
{
    if ts.len() == 0 {
        seq![]
    } else {
        let before = recognized(ts.drop_last());
        let o = op_of(ts.last());
        if o == Operation::Unknown {
            before
        } else {
            before.push(o)
        }
    }
}

/// The operations that a message text asks for, in the order of its tokens.
pub open spec fn operations_of(text: Seq<char>) -> Seq<Operation> {
    recognized(tokens(text))
}

fn same_chars(a: &str, b: &str) -> (r: bool)
    ensures
        r == (a@ == b@),
{
    let n = a.unicode_len();
    if n != b.unicode_len() {
        return false;
    }
    let mut i: usize = 0;
    while i < n
        invariant
            n == a@.len(),
            n == b@.len(),
            i <= n,
            forall|k: int| 0 <= k < i ==> a@[k] == b@[k],
        decreases n - i,
    {
        if a.get_char(i) != b.get_char(i) {
            return false;
        }
        i = i + 1;
    }
    proof {
        assert(a@ =~= b@);
    }
    true
}

impl Operation {
    /// The operation that `token` names, `Unknown` for any other token.
    pub fn from_token(token: &str) -> (r: Operation)
        ensures
            r == op_of(token@),
    {
        if same_chars(token, "flip") {
            Operation::Flip
        } else if same_chars(token, "mirror") {
            Operation::Mirror
        } else if same_chars(token, "color") {
            Operation::Quantize
        } else if same_chars(token, "rotate") {
            Operation::Rotate
        } else if same_chars(token, "fry") {
            Operation::Fry
        } else if same_chars(token, "liquid") {
            Operation::LiquidRescale
        } else {
            Operation::Unknown
        }
    }
}

/// The operations named by `tokens`, in order, with unknown tokens dropped.
pub fn recognize(tokens: &Vec<String>) -> (r: Vec<Operation>)
    ensures
        r@ == recognized(tokens@.map_values(|t: String| t@)),
{
    let ghost ts = tokens@.map_values(|t: String| t@);
    let mut out: Vec<Operation> = Vec::new();
    let mut i: usize = 0;
    while i < tokens.len()
        invariant
            i <= tokens@.len(),
            ts == tokens@.map_values(|t: String| t@),
            out@ == recognized(ts.take(i as int)),
        decreases tokens@.len() - i,
    {
        let o = Operation::from_token(tokens[i].as_str());
        proof {
            assert(ts.take(i + 1).drop_last() =~= ts.take(i as int));
            assert(ts.take(i + 1).last() == tokens@[i as int]@);
        }
        if o != Operation::Unknown {
            out.push(o);
        }
        i = i + 1;
    }
    proof {
        assert(ts.take(tokens@.len() as int) =~= ts);
    }
    out
}

/// The operations that a message text asks for, in the order of its tokens.
pub fn operations(text: &str) -> (r: Vec<Operation>)
    ensures
        r@ == operations_of(text@),
{
    let ts = tokenize(text);
    recognize(&ts)
}

/// A text whose tokens all name no operation asks for none.
pub proof fn lemma_unrecognized_asks_nothing(text: Seq<char>)
    requires
        forall|k: int| 0 <= k < tokens(text).len() ==> op_of(#[trigger] tokens(text)[k]) == Operation::Unknown,
    ensures
        operations_of(text) == Seq::<Operation>::empty(),
{
    lemma_recognized_none(tokens(text));
}

proof fn lemma_recognized_none(ts: Seq<Seq<char>>)
    requires
        forall|k: int| 0 <= k < ts.len() ==> op_of(#[trigger] ts[k]) == Operation::Unknown,
    ensures
        recognized(ts) == Seq::<Operation>::empty(),
    decreases ts.len(),
{
    if ts.len() > 0 {
        let p = ts.drop_last();
        assert forall|k: int| 0 <= k < p.len() implies op_of(#[trigger] p[k]) == Operation::Unknown by {
            assert(p[k] == ts[k]);
        }
        lemma_recognized_none(p);
        assert(op_of(ts[ts.len() - 1]) == Operation::Unknown);
    }
}

} // verus!
