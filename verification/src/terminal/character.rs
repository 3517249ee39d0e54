use vstd::prelude::*;

verus! {

/// Character in terminal cell with modifiers
#[derive(Eq, PartialEq, Structural, Debug, Copy, Clone)]
pub struct Character {
    symbol: char,
}

impl Character {
    /// The symbol, as used in contracts.
    pub closed spec fn spec_symbol(self) -> char {
        self.symbol
    }

    pub fn new(symbol: char) -> (r: Self)
        ensures
            r.symbol() == symbol,
    {
        Self { symbol }
    }

    #[verifier::when_used_as_spec(spec_symbol)]
    pub fn symbol(self) -> (r: char)
        ensures
            r == self.spec_symbol(),
    {
        self.symbol
    }

    /// The character as shown: its symbol.
    pub fn to_string(self) -> (r: String)
        ensures
            r@ == seq![self.spec_symbol()],
    {
        let mut r = String::new();
        r.push(self.symbol);
        r
    }

    /// The same character with another symbol.
    pub fn update_symbol(self, symbol: char) -> (r: Self)
        ensures
            r.symbol() == symbol,
    {
        Self { symbol }
    }

    /// Characters with the same symbol are equal.
    pub broadcast proof fn lemma_character_ext(a: Character, b: Character)
        ensures
            #[trigger] a.symbol() == #[trigger] b.symbol() <==> a == b,
    {
    }
}

impl From<char> for Character {
    fn from(s: char) -> (r: Self)
        ensures
            r.symbol() == s,
    {
        Self::new(s)
    }
}

impl vstd::std_specs::convert::FromSpecImpl<char> for Character {
    open spec fn obeys_from_spec() -> bool {
        true
    }

    closed spec fn from_spec(v: char) -> Self {
        Character { symbol: v }
    }
}

impl Default for Character {
    /// A blank cell.
    fn default() -> (r: Self)
        ensures
            r.symbol() == ' ',
    {
        Self { symbol: ' ' }
    }
}

/// A run of characters, one per cell.
#[derive(Debug)]
pub struct Characters(pub Vec<Character>);

/// The characters of a string, one per `char`.
pub open spec fn chars_of(s: Seq<char>) -> Seq<Character>
    decreases s.len(),
{
    if s.len() == 0 {
        seq![]
    } else {
        chars_of(s.drop_last()).push(Character::spec_new(s.last()))
    }
}

impl Character {
    /// The character holding `symbol`, as used in contracts.
    pub closed spec fn spec_new(symbol: char) -> Character {
        Character { symbol }
    }

    /// What [`spec_new`](Self::spec_new) holds.
    pub broadcast proof fn lemma_spec_new(symbol: char)
        ensures
            #[trigger] Character::spec_new(symbol).symbol() == symbol,
    {
    }
}

impl Characters {
    /// One character per `char` of `s`.
    pub fn from_str(s: &str) -> (r: Self)
        ensures
            r.0@.len() == s@.len(),
            forall|i: int| 0 <= i < s@.len() ==> (#[trigger] r.0@[i]).symbol() == s@[i],
    {
        let n = s.unicode_len();
        let mut v: Vec<Character> = Vec::new();
        let mut i: usize = 0;
        while i < n
            invariant
                n == s@.len(),
                i <= n,
                v@.len() == i,
                forall|k: int| 0 <= k < i ==> (#[trigger] v@[k]).symbol() == s@[k],
            decreases n - i,
        {
            v.push(Character::new(s.get_char(i)));
            i += 1;
        }
        Characters(v)
    }
}

} // verus!
