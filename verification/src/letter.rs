//! The Morse alphabet and the `Letter` type: one symbol of text together with
//! its Morse code.
use vstd::prelude::*;

verus! {

/// The symbols that have a Morse code here: the lower-case ASCII letters,
/// the decimal digits and the space.
pub open spec fn is_symbol(c: char) -> bool {
    ('a' <= c && c <= 'z') || ('0' <= c && c <= '9') || c == ' '
}

/// The Morse code of a symbol, written with `.`, `-` and, for the space, `/`.
/// A character that is no symbol has the empty code.
pub open spec fn morse_code(c: char) -> Seq<char> {
    match c {
        'a' => seq!['.', '-'],
        'b' => seq!['-', '.', '.', '.'],
        'c' => seq!['-', '.', '-', '.'],
        'd' => seq!['-', '.', '.'],
        'e' => seq!['.'],
        'f' => seq!['.', '.', '-', '.'],
        'g' => seq!['-', '-', '.'],
        'h' => seq!['.', '.', '.', '.'],
        'i' => seq!['.', '.'],
        'j' => seq!['.', '-', '-', '-'],
        'k' => seq!['-', '.', '-'],
        'l' => seq!['.', '-', '.', '.'],
        'm' => seq!['-', '-'],
        'n' => seq!['-', '.'],
        'o' => seq!['-', '-', '-'],
        'p' => seq!['.', '-', '-', '.'],
        'q' => seq!['-', '-', '.', '-'],
        'r' => seq!['.', '-', '.'],
        's' => seq!['.', '.', '.'],
        't' => seq!['-'],
        'u' => seq!['.', '.', '-'],
        'v' => seq!['.', '.', '.', '-'],
        'w' => seq!['.', '-', '-'],
        'x' => seq!['-', '.', '.', '-'],
        'y' => seq!['-', '.', '-', '-'],
        'z' => seq!['-', '-', '.', '.'],
        '1' => seq!['.', '-', '-', '-', '-'],
        '2' => seq!['.', '.', '-', '-', '-'],
        '3' => seq!['.', '.', '.', '-', '-'],
        '4' => seq!['.', '.', '.', '.', '-'],
        '5' => seq!['.', '.', '.', '.', '.'],
        '6' => seq!['-', '.', '.', '.', '.'],
        '7' => seq!['-', '-', '.', '.', '.'],
        '8' => seq!['-', '-', '-', '.', '.'],
        '9' => seq!['-', '-', '-', '-', '.'],
        '0' => seq!['-', '-', '-', '-', '-'],
        ' ' => seq!['/'],
        _ => seq![],
    }
}

/// ASCII lower-casing of one character: `A`..`Z` become `a`..`z`, every
/// other character stays as it is.
pub open spec fn ascii_lower(c: char) -> char {
    if 'A' <= c && c <= 'Z' {
        ((c as u32) + 32) as char
    } else {
        c
    }
}

/// ASCII lower-casing of a string, character by character.
pub open spec fn ascii_lower_str(s: Seq<char>) -> Seq<char> {
    s.map_values(|c: char| ascii_lower(c))
}

/// The symbol that a string names, read case-insensitively: a string names the
/// symbol that it spells (`"a"`, `"A"`, `" "`) and the symbol whose Morse
/// code it is (`".-"`, `"/"`). Any other string names nothing.
pub open spec fn symbol_named_by(s: Seq<char>) -> Option<char> {
    let t = ascii_lower_str(s);
    if t.len() == 1 && is_symbol(t[0]) {
        Some(t[0])
    } else if exists|c: char| is_symbol(c) && morse_code(c) == t {
        Some(choose|c: char| is_symbol(c) && morse_code(c) == t)
    } else {
        None
    }
}

/// The message of the error that reading an unknown string gives.
pub open spec fn no_representation_message(s: Seq<char>) -> Seq<char> {
    "No representation found for the string: "@ + s
}

/// Two symbols with the same Morse code are the same symbol.
#[verifier::spinoff_prover]
#[verifier::rlimit(50)]
pub proof fn lemma_morse_code_injective(c1: char, c2: char)
    requires
        is_symbol(c1),
        is_symbol(c2),
        morse_code(c1) == morse_code(c2),
    ensures
        c1 == c2,
{
    let s = morse_code(c1);
    let t = morse_code(c2);
    assert(s.len() == t.len());
    if s.len() > 0 {
        assert(s[0] == t[0]);
    }
    if s.len() > 1 {
        assert(s[1] == t[1]);
    }
    if s.len() > 2 {
        assert(s[2] == t[2]);
    }
    if s.len() > 3 {
        assert(s[3] == t[3]);
    }
    if s.len() > 4 {
        assert(s[4] == t[4]);
    }
}

fn is_symbol_char(c: char) -> (b: bool)
    ensures
        b == is_symbol(c),
{
    ('a' <= c && c <= 'z') || ('0' <= c && c <= '9') || c == ' '
}

fn lower_char(c: char) -> (r: char)
    ensures
        r == ascii_lower(c),
{
    if 'A' <= c && c <= 'Z' {
        ((c as u8) + 32) as char
    } else {
        c
    }
}

fn code_chars(c: char) -> (r: Vec<char>)
    ensures
        r@ == morse_code(c),
{
    match c {
        'a' => vec!['.', '-'],
        'b' => vec!['-', '.', '.', '.'],
        'c' => vec!['-', '.', '-', '.'],
        'd' => vec!['-', '.', '.'],
        'e' => vec!['.'],
        'f' => vec!['.', '.', '-', '.'],
        'g' => vec!['-', '-', '.'],
        'h' => vec!['.', '.', '.', '.'],
        'i' => vec!['.', '.'],
        'j' => vec!['.', '-', '-', '-'],
        'k' => vec!['-', '.', '-'],
        'l' => vec!['.', '-', '.', '.'],
        'm' => vec!['-', '-'],
        'n' => vec!['-', '.'],
        'o' => vec!['-', '-', '-'],
        'p' => vec!['.', '-', '-', '.'],
        'q' => vec!['-', '-', '.', '-'],
        'r' => vec!['.', '-', '.'],
        's' => vec!['.', '.', '.'],
        't' => vec!['-'],
        'u' => vec!['.', '.', '-'],
        'v' => vec!['.', '.', '.', '-'],
        'w' => vec!['.', '-', '-'],
        'x' => vec!['-', '.', '.', '-'],
        'y' => vec!['-', '.', '-', '-'],
        'z' => vec!['-', '-', '.', '.'],
        '1' => vec!['.', '-', '-', '-', '-'],
        '2' => vec!['.', '.', '-', '-', '-'],
        '3' => vec!['.', '.', '.', '-', '-'],
        '4' => vec!['.', '.', '.', '.', '-'],
        '5' => vec!['.', '.', '.', '.', '.'],
        '6' => vec!['-', '.', '.', '.', '.'],
        '7' => vec!['-', '-', '.', '.', '.'],
        '8' => vec!['-', '-', '-', '.', '.'],
        '9' => vec!['-', '-', '-', '-', '.'],
        '0' => vec!['-', '-', '-', '-', '-'],
        ' ' => vec!['/'],
        _ => Vec::new(),
    }
}

fn same_chars(a: &Vec<char>, b: &Vec<char>) -> (r: bool)
    ensures
        r == (a@ == b@),
{
    if a.len() != b.len() {
        return false;
    }
    let mut i: usize = 0;
    while i < a.len()
        invariant
            a@.len() == b@.len(),
            i <= a@.len(),
            forall|j: int| 0 <= j < i ==> a@[j] == b@[j],
        decreases a@.len() - i,
    {
        if a[i] != b[i] {
            return false;
        }
        i = i + 1;
    }
    assert(a@ =~= b@);
    true
}

/// The symbol whose Morse code is `t`, if any.
fn symbol_with_code(t: &Vec<char>) -> (r: Option<char>)
    ensures
        match r {
            Some(c) => is_symbol(c) && morse_code(c) == t@,
            None => forall|c: char| is_symbol(c) ==> morse_code(c) != t@,
        },
{
    let mut b: u8 = 0;
    while b < 128
        invariant
            b <= 128,
            forall|c: char| is_symbol(c) && (c as u32) < b ==> morse_code(c) != t@,
        decreases 128 - b,
    {
        let c = b as char;
        if is_symbol_char(c) {
            let code = code_chars(c);
            if same_chars(&code, t) {
                return Some(c);
            }
        }
        b = b + 1;
    }
    None
}

/// One symbol of text together with its Morse code.
#[derive(Clone, Copy, Debug, PartialEq, Eq, Structural)]
pub struct Letter {
    symbol: char,
}

impl View for Letter {
    type V = char;

    /// The symbol that the letter stands for.
    closed spec fn view(&self) -> char {
        self.symbol
    }
}

/// The bytes of a string of ASCII characters.
pub open spec fn ascii_bytes(s: Seq<char>) -> Seq<u8> {
    s.map_values(|c: char| c as u8)
}

/// The Morse text of a sequence of symbols: the code of each symbol, each
/// followed by one space.
pub open spec fn morse_line(symbols: Seq<char>) -> Seq<u8>
    decreases symbols.len(),
{
    if symbols.len() == 0 {
        Seq::empty()
    } else {
        morse_line(symbols.drop_last()) + ascii_bytes(morse_code(symbols.last())) + seq![32u8]
    }
}

/// The symbols of a sequence of letters.
pub open spec fn symbols_of(letters: Seq<Letter>) -> Seq<char> {
    letters.map_values(|l: Letter| l@)
}

impl Letter {
    #[verifier::type_invariant]
    spec fn well_formed(self) -> bool {
        is_symbol(self.symbol)
    }

    /// A letter is determined by the symbol that it stands for.
    pub proof fn lemma_view(self, other: Letter)
        ensures
            (self@ == other@) == (self == other),
    {
    }

    /// Reads a letter from a string that spells a symbol in either case, or
    /// that is the Morse code of a symbol.
    pub fn from_str(s: &str) -> (r: Result<Letter, String>)
        ensures
            match r {
                Ok(l) => symbol_named_by(s@) == Some(l@),
                Err(e) => symbol_named_by(s@) is None && e@ == no_representation_message(s@),
            },
    {
        let mut t: Vec<char> = Vec::new();
        for c in it: s.chars()
            invariant
                it.seq() == s@,
                t@ == ascii_lower_str(s@.take(it.index() as int)),
        {
            let ghost i = it.index() as int;
            t.push(lower_char(c));
            assert(ascii_lower_str(s@.take(i + 1)) =~= ascii_lower_str(s@.take(i)).push(ascii_lower(s@[i])));
        }
        assert(s@.take(s@.len() as int) =~= s@);
        if t.len() == 1 && is_symbol_char(t[0]) {
            return Ok(Letter { symbol: t[0] });
        }
        match symbol_with_code(&t) {
            Some(c) => {
                proof {
                    let d = choose|d: char| is_symbol(d) && morse_code(d) == t@;
                    lemma_morse_code_injective(c, d);
                }
                Ok(Letter { symbol: c })
            },
            None => {
                let mut e = String::from_str("No representation found for the string: ");
                e.append(s);
                Err(e)
            },
        }
    }

    /// The Morse code of the letter.
    pub fn code(&self) -> (r: Vec<char>)
        ensures
            r@ == morse_code(self@),
            is_symbol(self@),
    {
        proof {
            use_type_invariant(self);
        }
        code_chars(self.symbol)
    }

    /// The Morse text of `args`: the code of each letter followed by a space.
    pub fn concat_morse(args: &[Letter]) -> (r: Vec<u8>)
        ensures
            r@ == morse_line(symbols_of(args@)),
    {
        let mut out: Vec<u8> = Vec::new();
        let mut i: usize = 0;
        while i < args.len()
            invariant
                i <= args@.len(),
                out@ == morse_line(symbols_of(args@.take(i as int))),
            decreases args@.len() - i,
        {
            let letter = args[i];
            let code = code_chars(letter.symbol);
            let ghost before = out@;
            let mut j: usize = 0;
            while j < code.len()
                invariant
                    j <= code@.len(),
                    code@ == morse_code(letter@),
                    out@ == before + ascii_bytes(code@.take(j as int)),
                decreases code@.len() - j,
            {
                out.push(code[j] as u8);
                assert(ascii_bytes(code@.take(j + 1)) =~= ascii_bytes(code@.take(j as int)).push(code@[j as int] as u8));
                j = j + 1;
            }
            out.push(32u8);
            assert(code@.take(code@.len() as int) =~= code@);
            assert(symbols_of(args@.take(i + 1)).drop_last() =~= symbols_of(args@.take(i as int)));
            i = i + 1;
        }
        assert(args@.take(args@.len() as int) =~= args@);
        out
    }

    /// The text of `args`: the symbol of each letter, as bytes.
    pub fn concat_text(args: &[Letter]) -> (r: Vec<u8>)
        ensures
            r@ == ascii_bytes(symbols_of(args@)),
    {
        let mut out: Vec<u8> = Vec::new();
        let mut i: usize = 0;
        while i < args.len()
            invariant
                i <= args@.len(),
                out@ == ascii_bytes(symbols_of(args@.take(i as int))),
            decreases args@.len() - i,
        {
            let letter = args[i];
            out.push(letter.symbol as u8);
            assert(ascii_bytes(symbols_of(args@.take(i + 1))) =~= ascii_bytes(symbols_of(args@.take(i as int))).push(letter.symbol as u8));
            i = i + 1;
        }
        assert(args@.take(args@.len() as int) =~= args@);
        out
    }
}

impl std::str::FromStr for Letter {
    type Err = String;

    fn from_str(s: &str) -> (r: Result<Letter, String>)
        ensures
            match r {
                Ok(l) => symbol_named_by(s@) == Some(l@),
                Err(e) => symbol_named_by(s@) is None && e@ == no_representation_message(s@),
            },
    {
        Letter::from_str(s)
    }
}

} // verus!
