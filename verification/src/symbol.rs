//! Contract symbols: short identifiers such as task types and asset types.
use vstd::prelude::*;
use vstd::string::StrSliceExecFns;

verus! {

/// The longest symbol the Soroban host accepts.
pub const SYMBOL_MAX_LEN: usize = 32;

/// A character the Soroban host accepts in a symbol: `a-z`, `A-Z`, `0-9`, `_`.
pub open spec fn is_symbol_char(c: char) -> bool {
    ('a' <= c && c <= 'z') || ('A' <= c && c <= 'Z') || ('0' <= c && c <= '9') || c == '_'
}

/// The text of a symbol: at most 32 characters, each a symbol character.
pub open spec fn valid_symbol(s: Seq<char>) -> bool {
    &&& s.len() <= SYMBOL_MAX_LEN
    &&& forall|i: int| 0 <= i < s.len() ==> is_symbol_char(#[trigger] s[i])
}

/// A symbol; its text is always a valid symbol.
#[derive(Debug, PartialEq, Eq)]
pub struct Symbol {
    text: String,
}

impl View for Symbol {
    type V = Seq<char>;

    closed spec fn view(&self) -> Seq<char> {
        self.text@
    }
}

impl Clone for Symbol {
    fn clone(&self) -> (r: Self)
        ensures
            r == *self,
    {
        proof {
            use_type_invariant(self);
        }
        Symbol { text: self.text.clone() }
    }
}

fn is_symbol_char_exec(c: char) -> (r: bool)
    ensures
        r == is_symbol_char(c),
{
    ('a' <= c && c <= 'z') || ('A' <= c && c <= 'Z') || ('0' <= c && c <= '9') || c == '_'
}

impl Symbol {
    #[verifier::type_invariant]
    spec fn wf(self) -> bool {
        valid_symbol(self.text@)
    }

    /// The symbol with the given text, or `None` where the text is not a valid symbol.
    pub fn new(text: &str) -> (r: Option<Symbol>)
        ensures
            r is Some <==> valid_symbol(text@),
            r matches Some(s) ==> s@ == text@,
    {
        let n = text.unicode_len();
        if n > SYMBOL_MAX_LEN {
            return None;
        }
        let mut i: usize = 0;
        while i < n
            invariant
                n == text@.len(),
                n <= SYMBOL_MAX_LEN,
                i <= n,
                forall|j: int| 0 <= j < i ==> is_symbol_char(#[trigger] text@[j]),
            decreases n - i,
        {
            let c = text.get_char(i);
            if !is_symbol_char_exec(c) {
                assert(!is_symbol_char(text@[i as int]));
                return None;
            }
            i = i + 1;
        }
        let owned = text.to_owned();
        Some(Symbol { text: owned })
    }

    /// The symbol's text.
    pub fn as_str(&self) -> (r: &str)
        ensures
            r@ == self@,
            valid_symbol(r@),
    {
        proof {
            use_type_invariant(self);
        }
        self.text.as_str()
    }

    /// Whether the symbol's text is `lit`.
    pub fn is(&self, lit: &str) -> (r: bool)
        ensures
            r == (self@ == lit@),
    {
        let other = lit.to_owned();
        self.text == other
    }
}

} // verus!
