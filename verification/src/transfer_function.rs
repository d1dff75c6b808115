//! Selection of the function that remaps pixel values before display.

use vstd::prelude::*;

verus! {

/// A function that remaps pixel values.
#[derive(Clone, Copy, Debug, PartialEq, Eq)]
pub enum TransferFunction {
    /// Pixel values are shown as they are.
    Linear,
    /// The square root stretches the faint end.
    Sqrt,
    /// The logarithm stretches the faint end further.
    Log,
    /// The inverse hyperbolic sine: linear when faint, logarithmic when bright.
    Asinh,
    /// The square stretches the bright end.
    Pow2,
}

/// Whether `word` occurs in `text` as a run of consecutive characters.
pub open spec fn occurs_in(word: Seq<char>, text: Seq<char>) -> bool {
    exists|at: int| occurs_at(word, text, at)
}

/// Whether `word` occurs in `text` from position `at` on.
pub open spec fn occurs_at(word: Seq<char>, text: Seq<char>, at: int) -> bool {
    0 <= at && at + word.len() <= text.len() && text.subrange(at, at + word.len()) == word
}

/// The transfer function that an identifier names: the first of `linear`,
/// `pow2`, `log` and `sqrt` that occurs in it, and `asinh` where none does.
pub open spec fn named(id: Seq<char>) -> TransferFunction {
    if occurs_in("linear"@, id) {
        TransferFunction::Linear
    } else if occurs_in("pow2"@, id) {
        TransferFunction::Pow2
    } else if occurs_in("log"@, id) {
        TransferFunction::Log
    } else if occurs_in("sqrt"@, id) {
        TransferFunction::Sqrt
    } else {
        TransferFunction::Asinh
    }
}

/// The number under which shaders know a transfer function.
pub open spec fn shader_code(t: TransferFunction) -> int {
    match t {
        TransferFunction::Linear => 0,
        TransferFunction::Sqrt => 1,
        TransferFunction::Log => 2,
        TransferFunction::Asinh => 3,
        TransferFunction::Pow2 => 4,
    }
}

/// The characters of a string, in order.
fn chars_of(text: &str) -> (chars: Vec<char>)
    ensures
        chars@ == text@,
{
    let mut chars: Vec<char> = Vec::new();
    for c in it: text.chars()
        invariant
            it.seq() == text@,
            chars@ == it.seq().take(it.index() as int),
    {
        chars.push(c);
    }
    assert(chars@ =~= text@);
    chars
}

/// Whether `word` occurs in `text` from position `at` on.
fn matches_at(word: &Vec<char>, text: &Vec<char>, at: usize) -> (found: bool)
    requires
        at + word@.len() <= text@.len(),
    ensures
        found == occurs_at(word@, text@, at as int),
{
    let word_len: usize = word.len();
    let text_len: usize = text.len();
    let mut k: usize = 0;
    while k < word_len
        invariant
            word_len == word@.len(),
            text_len == text@.len(),
            k <= word_len,
            at + word_len <= text_len,
            forall|j: int| 0 <= j < k ==> text@[at + j] == word@[j],
        decreases word_len - k,
    {
        if text[at + k] != word[k] {
            assert(text@.subrange(at as int, at + word@.len())[k as int] != word@[k as int]);
            return false;
        }
        k += 1;
    }
    assert(text@.subrange(at as int, at + word@.len()) =~= word@);
    true
}

/// Whether `word` occurs in `text`.
fn occurs(word: &str, text: &Vec<char>) -> (found: bool)
    ensures
        found == occurs_in(word@, text@),
{
    let letters = chars_of(word);
    if letters.len() > text.len() {
        return false;
    }
    let last: usize = text.len() - letters.len();
    let mut at: usize = 0;
    loop
        invariant
            letters@ == word@,
            last == text@.len() - letters@.len(),
            at <= last,
            forall|before: int| 0 <= before < at ==> !occurs_at(word@, text@, before),
        decreases last - at,
    {
        if matches_at(&letters, text, at) {
            return true;
        }
        if at == last {
            return false;
        }
        at += 1;
    }
}

impl TransferFunction {
    /// The transfer function that `id` names.
    pub fn new(id: &str) -> (t: Self)
        ensures
            t == named(id@),
    {
        let id = chars_of(id);
        if occurs("linear", &id) {
            TransferFunction::Linear
        } else if occurs("pow2", &id) {
            TransferFunction::Pow2
        } else if occurs("log", &id) {
            TransferFunction::Log
        } else if occurs("sqrt", &id) {
            TransferFunction::Sqrt
        } else {
            TransferFunction::Asinh
        }
    }

    /// The number under which shaders know this transfer function.
    pub fn code(&self) -> (code: i32)
        ensures
            code == shader_code(*self),
    {
        match self {
            TransferFunction::Linear => 0,
            TransferFunction::Sqrt => 1,
            TransferFunction::Log => 2,
            TransferFunction::Asinh => 3,
            TransferFunction::Pow2 => 4,
        }
    }
}

impl From<String> for TransferFunction {
    fn from(id: String) -> (t: Self) {
        TransferFunction::new(id.as_str())
    }
}

impl vstd::std_specs::convert::FromSpecImpl<String> for TransferFunction {
    open spec fn obeys_from_spec() -> bool {
        true
    }

    open spec fn from_spec(id: String) -> Self {
        named(id@)
    }
}

} // verus!
