//! What holds of the translation as a whole.
use vstd::prelude::*;
use crate::audio::{Tones, audio_samples, code_samples, tone_of};
use crate::letter::{ascii_bytes, ascii_lower, ascii_lower_str, is_symbol, lemma_morse_code_injective, morse_code, morse_line, symbol_named_by};
use crate::parser::MorseCommand;
use crate::translator::{rendered_line, all_named, all_translatable, audio_output, line_symbols, line_tokens, named_symbols, text_output};
use crate::words::{is_whitespace, split_words};
use crate::wav::{le16, le32, pcm_bytes, wav_fits, wav_header};

verus! {

/// The characters of a string of bytes, one per byte.
pub open spec fn chars_of(bytes: Seq<u8>) -> Seq<char> {
    bytes.map_values(|b: u8| b as char)
}

/// Every symbol is named by itself and by its Morse code; a named symbol is
/// a symbol of the alphabet.
pub proof fn lemma_symbol_names(c: char)
    requires
        is_symbol(c),
    ensures
        symbol_named_by(seq![c]) == Some(c),
        symbol_named_by(morse_code(c)) == Some(c),
{
    assert(ascii_lower_str(seq![c]) =~= seq![c]);
    let code = morse_code(c);
    assert(ascii_lower_str(code) =~= code);
    assert(is_symbol(c) && morse_code(c) == code);
    let d = choose|d: char| is_symbol(d) && morse_code(d) == code;
    lemma_morse_code_injective(c, d);
}

/// Whatever a string names is a symbol of the alphabet.
pub proof fn lemma_named_is_symbol(s: Seq<char>)
    requires
        symbol_named_by(s) is Some,
    ensures
        is_symbol(symbol_named_by(s).unwrap()),
{
}

/// Reading a string does not depend on the case of its ASCII letters.
pub proof fn lemma_case_insensitive(s: Seq<char>)
    ensures
        symbol_named_by(s) == symbol_named_by(ascii_lower_str(s)),
{
    assert(ascii_lower_str(ascii_lower_str(s)) =~= ascii_lower_str(s));
}

proof fn lemma_split_word_prefix(x: Seq<char>, w: Seq<char>, k: int)
    requires
        x.len() == 0 || is_whitespace(x.last()),
        forall|i: int| 0 <= i < w.len() ==> !is_whitespace(#[trigger] w[i]),
        1 <= k <= w.len(),
    ensures
        split_words(x + w.take(k)) == split_words(x).push(w.take(k)),
    decreases k,
{
    let s = x + w.take(k);
    assert(s.last() == w[k - 1]);
    if k == 1 {
        assert(s.drop_last() =~= x);
        assert(w.take(1) =~= seq![w[0]]);
    } else {
        lemma_split_word_prefix(x, w, k - 1);
        assert(s.drop_last() =~= x + w.take(k - 1));
        assert((x + w.take(k - 1)).last() == w[k - 2]);
        assert(w.take(k) =~= w.take(k - 1).push(w[k - 1]));
        assert(split_words(x).push(w.take(k - 1)).update(
            split_words(x).len() as int,
            w.take(k - 1).push(w[k - 1]),
        ) =~= split_words(x).push(w.take(k)));
    }
}

/// Appending a word and a space to text that ends a word (or is empty) adds
/// that word to its words.
proof fn lemma_split_append_word(x: Seq<char>, w: Seq<char>)
    requires
        x.len() == 0 || is_whitespace(x.last()),
        w.len() > 0,
        forall|i: int| 0 <= i < w.len() ==> !is_whitespace(#[trigger] w[i]),
    ensures
        split_words(x + w + seq![' ']) == split_words(x).push(w),
{
    lemma_split_word_prefix(x, w, w.len() as int);
    assert(w.take(w.len() as int) =~= w);
    assert((x + w + seq![' ']).drop_last() =~= x + w);
}

proof fn lemma_code_chars(c: char)
    requires
        is_symbol(c),
    ensures
        chars_of(ascii_bytes(morse_code(c))) == morse_code(c),
        forall|i: int| 0 <= i < morse_code(c).len() ==> !is_whitespace(#[trigger] morse_code(c)[i]),
        morse_code(c).len() > 0,
{
    assert(chars_of(ascii_bytes(morse_code(c))) =~= morse_code(c));
}

/// The words of a Morse line are the codes of its symbols.
proof fn lemma_morse_line_words(symbols: Seq<char>)
    requires
        forall|i: int| 0 <= i < symbols.len() ==> is_symbol(#[trigger] symbols[i]),
    ensures
        split_words(chars_of(morse_line(symbols))) == symbols.map_values(|c: char| morse_code(c)),
        chars_of(morse_line(symbols)).len() == 0 || chars_of(morse_line(symbols)).last() == ' ',
    decreases symbols.len(),
{
    if symbols.len() > 0 {
        let rest = symbols.drop_last();
        let c = symbols.last();
        lemma_morse_line_words(rest);
        lemma_code_chars(c);
        let x = chars_of(morse_line(rest));
        let w = morse_code(c);
        assert(chars_of(morse_line(symbols)) =~= x + chars_of(ascii_bytes(w)) + seq![' ']);
        lemma_split_append_word(x, w);
        assert(symbols.map_values(|c: char| morse_code(c)) =~= rest.map_values(|c: char| morse_code(c)).push(w));
    }
}

/// Decoding the Morse line of a sequence of symbols gives the symbols back.
pub proof fn lemma_decode_morse_line(symbols: Seq<char>)
    requires
        forall|i: int| 0 <= i < symbols.len() ==> is_symbol(#[trigger] symbols[i]),
    ensures
        all_named(line_tokens(chars_of(morse_line(symbols)), MorseCommand::Decode)),
        line_symbols(chars_of(morse_line(symbols)), MorseCommand::Decode) == symbols,
{
    lemma_morse_line_words(symbols);
    let tokens = line_tokens(chars_of(morse_line(symbols)), MorseCommand::Decode);
    assert forall|i: int| 0 <= i < tokens.len() implies symbol_named_by(#[trigger] tokens[i]) == Some(symbols[i]) by {
        lemma_symbol_names(symbols[i]);
    }
    assert(named_symbols(tokens) =~= symbols);
}

/// The letters that encoding a line gives are symbols of the alphabet.
proof fn lemma_encoded_symbols(line: Seq<char>)
    requires
        all_named(line_tokens(line, MorseCommand::Encode)),
    ensures
        forall|i: int| 0 <= i < line_symbols(line, MorseCommand::Encode).len()
            ==> is_symbol(#[trigger] line_symbols(line, MorseCommand::Encode)[i]),
{
    let tokens = line_tokens(line, MorseCommand::Encode);
    assert forall|i: int| 0 <= i < line_symbols(line, MorseCommand::Encode).len()
        implies is_symbol(#[trigger] line_symbols(line, MorseCommand::Encode)[i]) by {
        assert(symbol_named_by(tokens[i]) is Some);
    }
}

/// Decoding the Morse code that encoding a line gives yields the letters of
/// the encoding again.
pub proof fn lemma_encode_decode_roundtrip(line: Seq<char>)
    requires
        all_named(line_tokens(line, MorseCommand::Encode)),
    ensures
        all_named(line_tokens(chars_of(morse_line(line_symbols(line, MorseCommand::Encode))), MorseCommand::Decode)),
        line_symbols(chars_of(morse_line(line_symbols(line, MorseCommand::Encode))), MorseCommand::Decode)
            == line_symbols(line, MorseCommand::Encode),
{
    lemma_encoded_symbols(line);
    lemma_decode_morse_line(line_symbols(line, MorseCommand::Encode));
}

/// A line whose lower-cased characters are all symbols encodes to exactly
/// those symbols, so decoding its Morse code gives the lower-cased line.
pub proof fn lemma_plain_line_roundtrip(line: Seq<char>)
    requires
        forall|i: int| 0 <= i < line.len() ==> is_symbol(ascii_lower(#[trigger] line[i])),
    ensures
        all_named(line_tokens(line, MorseCommand::Encode)),
        line_symbols(line, MorseCommand::Encode) == ascii_lower_str(line),
        all_named(line_tokens(chars_of(morse_line(line_symbols(line, MorseCommand::Encode))), MorseCommand::Decode)),
        line_symbols(chars_of(morse_line(line_symbols(line, MorseCommand::Encode))), MorseCommand::Decode)
            == ascii_lower_str(line),
{
    let tokens = line_tokens(line, MorseCommand::Encode);
    assert forall|i: int| 0 <= i < tokens.len() implies symbol_named_by(#[trigger] tokens[i]) == Some(ascii_lower(line[i])) by {
        lemma_case_insensitive(tokens[i]);
        assert(ascii_lower_str(tokens[i]) =~= seq![ascii_lower(line[i])]);
        lemma_symbol_names(ascii_lower(line[i]));
    }
    assert(named_symbols(tokens) =~= ascii_lower_str(line));
    lemma_encode_decode_roundtrip(line);
}

/// Text made of lines, each followed by `\n`.
pub open spec fn joined_lines(lines: Seq<Seq<u8>>) -> Seq<u8>
    decreases lines.len(),
{
    if lines.len() == 0 {
        Seq::empty()
    } else {
        joined_lines(lines.drop_last()) + lines.last() + seq![10u8]
    }
}

/// The lines of Morse code that encoding each line gives, read back as text.
pub open spec fn encoded_lines(lines: Seq<Seq<char>>) -> Seq<Seq<char>> {
    lines.map_values(|l: Seq<char>| chars_of(morse_line(line_symbols(l, MorseCommand::Encode))))
}

/// Each line of the text that encoding gives is the Morse line of the
/// corresponding input line.
pub proof fn lemma_encoded_text_lines(lines: Seq<Seq<char>>)
    ensures
        text_output(lines, MorseCommand::Encode) == joined_lines(
            lines.map_values(|l: Seq<char>| morse_line(line_symbols(l, MorseCommand::Encode))),
        ),
    decreases lines.len(),
{
    if lines.len() > 0 {
        lemma_encoded_text_lines(lines.drop_last());
        assert(lines.map_values(|l: Seq<char>| morse_line(line_symbols(l, MorseCommand::Encode))).drop_last()
            =~= lines.drop_last().map_values(|l: Seq<char>| morse_line(line_symbols(l, MorseCommand::Encode))));
    }
}

/// Decoding, line by line, the text that encoding gives yields the input
/// again, lower-cased, provided that every lower-cased input character is a
/// symbol of the alphabet.
pub proof fn lemma_text_roundtrip(lines: Seq<Seq<char>>)
    requires
        forall|j: int, i: int|
            0 <= j < lines.len() && 0 <= i < lines[j].len() ==> is_symbol(ascii_lower(#[trigger] lines[j][i])),
    ensures
        all_translatable(encoded_lines(lines), MorseCommand::Decode),
        text_output(encoded_lines(lines), MorseCommand::Decode) == joined_lines(
            lines.map_values(|l: Seq<char>| ascii_bytes(ascii_lower_str(l))),
        ),
    decreases lines.len(),
{
    if lines.len() > 0 {
        let rest = lines.drop_last();
        let last = lines.last();
        assert forall|j: int, i: int| 0 <= j < rest.len() && 0 <= i < rest[j].len()
            implies is_symbol(ascii_lower(#[trigger] rest[j][i])) by {
            assert(rest[j] == lines[j]);
        }
        lemma_text_roundtrip(rest);
        assert forall|i: int| 0 <= i < last.len() implies is_symbol(ascii_lower(#[trigger] last[i])) by {
            assert(last == lines[lines.len() - 1]);
        }
        lemma_plain_line_roundtrip(last);
        let enc = encoded_lines(lines);
        assert(enc.drop_last() =~= encoded_lines(rest));
        assert(lines.map_values(|l: Seq<char>| ascii_bytes(ascii_lower_str(l))).drop_last()
            =~= rest.map_values(|l: Seq<char>| ascii_bytes(ascii_lower_str(l))));
        assert forall|j: int| 0 <= j < enc.len()
            implies all_named(#[trigger] line_tokens(enc[j], MorseCommand::Decode)) by {
            if j < enc.len() - 1 {
                assert(enc[j] == encoded_lines(rest)[j]);
            } else {
                assert(enc[j] == chars_of(morse_line(line_symbols(last, MorseCommand::Encode))));
            }
        }
    }
}

/// The symbols of every line, one line after the other.
pub open spec fn all_symbols(lines: Seq<Seq<char>>, command: MorseCommand) -> Seq<char>
    decreases lines.len(),
{
    if lines.len() == 0 {
        Seq::empty()
    } else {
        all_symbols(lines.drop_last(), command) + line_symbols(lines.last(), command)
    }
}

/// The sound of symbols one run after another is the sound of the first run
/// followed by the sound of the second.
pub proof fn lemma_audio_samples_append(a: Seq<char>, b: Seq<char>, tones: Tones)
    ensures
        audio_samples(a + b, tones) == audio_samples(a, tones) + audio_samples(b, tones),
    decreases b.len(),
{
    if b.len() == 0 {
        assert(a + b =~= a);
    } else {
        lemma_audio_samples_append(a, b.drop_last(), tones);
        assert((a + b).drop_last() =~= a + b.drop_last());
        assert((a + b).last() == b.last());
    }
}

/// The sound of a translation is the sound of all the letters of all lines,
/// in order.
pub proof fn lemma_audio_output_flat(lines: Seq<Seq<char>>, command: MorseCommand, tones: Tones)
    ensures
        audio_output(lines, command, tones) == audio_samples(all_symbols(lines, command), tones),
    decreases lines.len(),
{
    if lines.len() > 0 {
        lemma_audio_output_flat(lines.drop_last(), command, tones);
        lemma_audio_samples_append(all_symbols(lines.drop_last(), command), line_symbols(lines.last(), command), tones);
    }
}

/// The International Morse code of the letters from `a` to `m`: each symbol is read from
/// itself and from its code, as the pairs of this table give them.
#[verifier::rlimit(60)]
pub proof fn lemma_morse_table_a_to_m()
    ensures
        symbol_named_by("a"@) == Some('a'),
        symbol_named_by(".-"@) == Some('a'),
        morse_code('a') == ".-"@,
        symbol_named_by("b"@) == Some('b'),
        symbol_named_by("-..."@) == Some('b'),
        morse_code('b') == "-..."@,
        symbol_named_by("c"@) == Some('c'),
        symbol_named_by("-.-."@) == Some('c'),
        morse_code('c') == "-.-."@,
        symbol_named_by("d"@) == Some('d'),
        symbol_named_by("-.."@) == Some('d'),
        morse_code('d') == "-.."@,
        symbol_named_by("e"@) == Some('e'),
        symbol_named_by("."@) == Some('e'),
        morse_code('e') == "."@,
        symbol_named_by("f"@) == Some('f'),
        symbol_named_by("..-."@) == Some('f'),
        morse_code('f') == "..-."@,
        symbol_named_by("g"@) == Some('g'),
        symbol_named_by("--."@) == Some('g'),
        morse_code('g') == "--."@,
        symbol_named_by("h"@) == Some('h'),
        symbol_named_by("...."@) == Some('h'),
        morse_code('h') == "...."@,
        symbol_named_by("i"@) == Some('i'),
        symbol_named_by(".."@) == Some('i'),
        morse_code('i') == ".."@,
        symbol_named_by("j"@) == Some('j'),
        symbol_named_by(".---"@) == Some('j'),
        morse_code('j') == ".---"@,
        symbol_named_by("k"@) == Some('k'),
        symbol_named_by("-.-"@) == Some('k'),
        morse_code('k') == "-.-"@,
        symbol_named_by("l"@) == Some('l'),
        symbol_named_by(".-.."@) == Some('l'),
        morse_code('l') == ".-.."@,
        symbol_named_by("m"@) == Some('m'),
        symbol_named_by("--"@) == Some('m'),
        morse_code('m') == "--"@,
{
    reveal_strlit("a");
    reveal_strlit(".-");
    assert("a"@ =~= seq!['a']);
    assert(morse_code('a') =~= ".-"@);
    lemma_symbol_names('a');
    reveal_strlit("b");
    reveal_strlit("-...");
    assert("b"@ =~= seq!['b']);
    assert(morse_code('b') =~= "-..."@);
    lemma_symbol_names('b');
    reveal_strlit("c");
    reveal_strlit("-.-.");
    assert("c"@ =~= seq!['c']);
    assert(morse_code('c') =~= "-.-."@);
    lemma_symbol_names('c');
    reveal_strlit("d");
    reveal_strlit("-..");
    assert("d"@ =~= seq!['d']);
    assert(morse_code('d') =~= "-.."@);
    lemma_symbol_names('d');
    reveal_strlit("e");
    reveal_strlit(".");
    assert("e"@ =~= seq!['e']);
    assert(morse_code('e') =~= "."@);
    lemma_symbol_names('e');
    reveal_strlit("f");
    reveal_strlit("..-.");
    assert("f"@ =~= seq!['f']);
    assert(morse_code('f') =~= "..-."@);
    lemma_symbol_names('f');
    reveal_strlit("g");
    reveal_strlit("--.");
    assert("g"@ =~= seq!['g']);
    assert(morse_code('g') =~= "--."@);
    lemma_symbol_names('g');
    reveal_strlit("h");
    reveal_strlit("....");
    assert("h"@ =~= seq!['h']);
    assert(morse_code('h') =~= "...."@);
    lemma_symbol_names('h');
    reveal_strlit("i");
    reveal_strlit("..");
    assert("i"@ =~= seq!['i']);
    assert(morse_code('i') =~= ".."@);
    lemma_symbol_names('i');
    reveal_strlit("j");
    reveal_strlit(".---");
    assert("j"@ =~= seq!['j']);
    assert(morse_code('j') =~= ".---"@);
    lemma_symbol_names('j');
    reveal_strlit("k");
    reveal_strlit("-.-");
    assert("k"@ =~= seq!['k']);
    assert(morse_code('k') =~= "-.-"@);
    lemma_symbol_names('k');
    reveal_strlit("l");
    reveal_strlit(".-..");
    assert("l"@ =~= seq!['l']);
    assert(morse_code('l') =~= ".-.."@);
    lemma_symbol_names('l');
    reveal_strlit("m");
    reveal_strlit("--");
    assert("m"@ =~= seq!['m']);
    assert(morse_code('m') =~= "--"@);
    lemma_symbol_names('m');
}

/// The International Morse code of the letters from `n` to `z`: each symbol is read from
/// itself and from its code, as the pairs of this table give them.
#[verifier::rlimit(60)]
pub proof fn lemma_morse_table_n_to_z()
    ensures
        symbol_named_by("n"@) == Some('n'),
        symbol_named_by("-."@) == Some('n'),
        morse_code('n') == "-."@,
        symbol_named_by("o"@) == Some('o'),
        symbol_named_by("---"@) == Some('o'),
        morse_code('o') == "---"@,
        symbol_named_by("p"@) == Some('p'),
        symbol_named_by(".--."@) == Some('p'),
        morse_code('p') == ".--."@,
        symbol_named_by("q"@) == Some('q'),
        symbol_named_by("--.-"@) == Some('q'),
        morse_code('q') == "--.-"@,
        symbol_named_by("r"@) == Some('r'),
        symbol_named_by(".-."@) == Some('r'),
        morse_code('r') == ".-."@,
        symbol_named_by("s"@) == Some('s'),
        symbol_named_by("..."@) == Some('s'),
        morse_code('s') == "..."@,
        symbol_named_by("t"@) == Some('t'),
        symbol_named_by("-"@) == Some('t'),
        morse_code('t') == "-"@,
        symbol_named_by("u"@) == Some('u'),
        symbol_named_by("..-"@) == Some('u'),
        morse_code('u') == "..-"@,
        symbol_named_by("v"@) == Some('v'),
        symbol_named_by("...-"@) == Some('v'),
        morse_code('v') == "...-"@,
        symbol_named_by("w"@) == Some('w'),
        symbol_named_by(".--"@) == Some('w'),
        morse_code('w') == ".--"@,
        symbol_named_by("x"@) == Some('x'),
        symbol_named_by("-..-"@) == Some('x'),
        morse_code('x') == "-..-"@,
        symbol_named_by("y"@) == Some('y'),
        symbol_named_by("-.--"@) == Some('y'),
        morse_code('y') == "-.--"@,
        symbol_named_by("z"@) == Some('z'),
        symbol_named_by("--.."@) == Some('z'),
        morse_code('z') == "--.."@,
{
    reveal_strlit("n");
    reveal_strlit("-.");
    assert("n"@ =~= seq!['n']);
    assert(morse_code('n') =~= "-."@);
    lemma_symbol_names('n');
    reveal_strlit("o");
    reveal_strlit("---");
    assert("o"@ =~= seq!['o']);
    assert(morse_code('o') =~= "---"@);
    lemma_symbol_names('o');
    reveal_strlit("p");
    reveal_strlit(".--.");
    assert("p"@ =~= seq!['p']);
    assert(morse_code('p') =~= ".--."@);
    lemma_symbol_names('p');
    reveal_strlit("q");
    reveal_strlit("--.-");
    assert("q"@ =~= seq!['q']);
    assert(morse_code('q') =~= "--.-"@);
    lemma_symbol_names('q');
    reveal_strlit("r");
    reveal_strlit(".-.");
    assert("r"@ =~= seq!['r']);
    assert(morse_code('r') =~= ".-."@);
    lemma_symbol_names('r');
    reveal_strlit("s");
    reveal_strlit("...");
    assert("s"@ =~= seq!['s']);
    assert(morse_code('s') =~= "..."@);
    lemma_symbol_names('s');
    reveal_strlit("t");
    reveal_strlit("-");
    assert("t"@ =~= seq!['t']);
    assert(morse_code('t') =~= "-"@);
    lemma_symbol_names('t');
    reveal_strlit("u");
    reveal_strlit("..-");
    assert("u"@ =~= seq!['u']);
    assert(morse_code('u') =~= "..-"@);
    lemma_symbol_names('u');
    reveal_strlit("v");
    reveal_strlit("...-");
    assert("v"@ =~= seq!['v']);
    assert(morse_code('v') =~= "...-"@);
    lemma_symbol_names('v');
    reveal_strlit("w");
    reveal_strlit(".--");
    assert("w"@ =~= seq!['w']);
    assert(morse_code('w') =~= ".--"@);
    lemma_symbol_names('w');
    reveal_strlit("x");
    reveal_strlit("-..-");
    assert("x"@ =~= seq!['x']);
    assert(morse_code('x') =~= "-..-"@);
    lemma_symbol_names('x');
    reveal_strlit("y");
    reveal_strlit("-.--");
    assert("y"@ =~= seq!['y']);
    assert(morse_code('y') =~= "-.--"@);
    lemma_symbol_names('y');
    reveal_strlit("z");
    reveal_strlit("--..");
    assert("z"@ =~= seq!['z']);
    assert(morse_code('z') =~= "--.."@);
    lemma_symbol_names('z');
}

/// The International Morse code of the digits and the space: each symbol is read from
/// itself and from its code, as the pairs of this table give them.
#[verifier::rlimit(60)]
pub proof fn lemma_morse_table_digits_and_space()
    ensures
        symbol_named_by("1"@) == Some('1'),
        symbol_named_by(".----"@) == Some('1'),
        morse_code('1') == ".----"@,
        symbol_named_by("2"@) == Some('2'),
        symbol_named_by("..---"@) == Some('2'),
        morse_code('2') == "..---"@,
        symbol_named_by("3"@) == Some('3'),
        symbol_named_by("...--"@) == Some('3'),
        morse_code('3') == "...--"@,
        symbol_named_by("4"@) == Some('4'),
        symbol_named_by("....-"@) == Some('4'),
        morse_code('4') == "....-"@,
        symbol_named_by("5"@) == Some('5'),
        symbol_named_by("....."@) == Some('5'),
        morse_code('5') == "....."@,
        symbol_named_by("6"@) == Some('6'),
        symbol_named_by("-...."@) == Some('6'),
        morse_code('6') == "-...."@,
        symbol_named_by("7"@) == Some('7'),
        symbol_named_by("--..."@) == Some('7'),
        morse_code('7') == "--..."@,
        symbol_named_by("8"@) == Some('8'),
        symbol_named_by("---.."@) == Some('8'),
        morse_code('8') == "---.."@,
        symbol_named_by("9"@) == Some('9'),
        symbol_named_by("----."@) == Some('9'),
        morse_code('9') == "----."@,
        symbol_named_by("0"@) == Some('0'),
        symbol_named_by("-----"@) == Some('0'),
        morse_code('0') == "-----"@,
        symbol_named_by(" "@) == Some(' '),
        symbol_named_by("/"@) == Some(' '),
        morse_code(' ') == "/"@,
{
    reveal_strlit("1");
    reveal_strlit(".----");
    assert("1"@ =~= seq!['1']);
    assert(morse_code('1') =~= ".----"@);
    lemma_symbol_names('1');
    reveal_strlit("2");
    reveal_strlit("..---");
    assert("2"@ =~= seq!['2']);
    assert(morse_code('2') =~= "..---"@);
    lemma_symbol_names('2');
    reveal_strlit("3");
    reveal_strlit("...--");
    assert("3"@ =~= seq!['3']);
    assert(morse_code('3') =~= "...--"@);
    lemma_symbol_names('3');
    reveal_strlit("4");
    reveal_strlit("....-");
    assert("4"@ =~= seq!['4']);
    assert(morse_code('4') =~= "....-"@);
    lemma_symbol_names('4');
    reveal_strlit("5");
    reveal_strlit(".....");
    assert("5"@ =~= seq!['5']);
    assert(morse_code('5') =~= "....."@);
    lemma_symbol_names('5');
    reveal_strlit("6");
    reveal_strlit("-....");
    assert("6"@ =~= seq!['6']);
    assert(morse_code('6') =~= "-...."@);
    lemma_symbol_names('6');
    reveal_strlit("7");
    reveal_strlit("--...");
    assert("7"@ =~= seq!['7']);
    assert(morse_code('7') =~= "--..."@);
    lemma_symbol_names('7');
    reveal_strlit("8");
    reveal_strlit("---..");
    assert("8"@ =~= seq!['8']);
    assert(morse_code('8') =~= "---.."@);
    lemma_symbol_names('8');
    reveal_strlit("9");
    reveal_strlit("----.");
    assert("9"@ =~= seq!['9']);
    assert(morse_code('9') =~= "----."@);
    lemma_symbol_names('9');
    reveal_strlit("0");
    reveal_strlit("-----");
    assert("0"@ =~= seq!['0']);
    assert(morse_code('0') =~= "-----"@);
    lemma_symbol_names('0');
    reveal_strlit(" ");
    reveal_strlit("/");
    assert(" "@ =~= seq![' ']);
    assert(morse_code(' ') =~= "/"@);
    lemma_symbol_names(' ');
}

/// Reading one character ignores ASCII case: each upper-case letter `A`..`Z`
/// is read as the lower-case letter 32 code points above it, exactly as that
/// lower-case letter is read.
pub proof fn lemma_upper_case_letter(c: char)
    requires
        'A' <= c <= 'Z',
    ensures
        symbol_named_by(seq![c]) == Some(((c as u32) + 32) as char),
        symbol_named_by(seq![c]) == symbol_named_by(seq![((c as u32) + 32) as char]),
{
    let lc = ((c as u32) + 32) as char;
    assert(ascii_lower_str(seq![c]) =~= seq![lc]);
    assert('a' <= lc <= 'z');
    lemma_symbol_names(lc);
}

/// The words of text that ends in a character other than whitespace are not
/// none.
proof fn lemma_split_words_nonempty(s: Seq<char>)
    requires
        s.len() > 0,
        !is_whitespace(s.last()),
    ensures
        split_words(s).len() > 0,
    decreases s.len(),
{
    let rest = s.drop_last();
    if rest.len() > 0 && !is_whitespace(rest.last()) {
        lemma_split_words_nonempty(rest);
    }
}

/// A non-empty run of characters none of which is whitespace is one word.
pub proof fn lemma_split_single_word(s: Seq<char>)
    requires
        s.len() > 0,
        forall|i: int| 0 <= i < s.len() ==> !is_whitespace(#[trigger] s[i]),
    ensures
        split_words(s) == seq![s],
    decreases s.len(),
{
    let rest = s.drop_last();
    assert(!is_whitespace(s[s.len() - 1]));
    if rest.len() == 0 {
        assert(split_words(rest) =~= Seq::<Seq<char>>::empty());
        assert(s =~= seq![s.last()]);
    } else {
        assert(!is_whitespace(rest[rest.len() - 1]));
        lemma_split_single_word(rest);
        assert(rest.push(s.last()) =~= s);
        assert(seq![rest].update(0, rest.push(s.last())) =~= seq![s]);
    }
}

/// Whitespace separates words: the words of `a`, one whitespace character,
/// then `b` are the words of `a` followed by the words of `b`.
pub proof fn lemma_split_at_whitespace(a: Seq<char>, w: char, b: Seq<char>)
    requires
        is_whitespace(w),
    ensures
        split_words(a + seq![w] + b) == split_words(a) + split_words(b),
    decreases b.len(),
{
    let s = a + seq![w] + b;
    if b.len() == 0 {
        assert(s.drop_last() =~= a);
        assert(split_words(a) + split_words(b) =~= split_words(a));
    } else {
        let b0 = b.drop_last();
        let c = b.last();
        lemma_split_at_whitespace(a, w, b0);
        let rest = a + seq![w] + b0;
        assert(s.drop_last() =~= rest);
        assert(s.last() == c);
        let x = split_words(a);
        let y0 = split_words(b0);
        if is_whitespace(c) {
        } else if b0.len() == 0 {
            assert(rest.last() == w);
            assert(y0 =~= Seq::<Seq<char>>::empty());
            assert((x + y0).push(seq![c]) =~= x + y0.push(seq![c]));
        } else if is_whitespace(b0.last()) {
            assert(rest.last() == b0.last());
            assert((x + y0).push(seq![c]) =~= x + y0.push(seq![c]));
        } else {
            assert(rest.last() == b0.last());
            lemma_split_words_nonempty(b0);
            assert((x + y0).last() == y0.last());
            assert((x + y0).update((x + y0).len() - 1, y0.last().push(c))
                =~= x + y0.update(y0.len() - 1, y0.last().push(c)));
        }
    }
}

/// Decoding text that whitespace separates decodes each side on its own: the
/// words, the check and the decoded text of `a`, a whitespace character, then
/// `b` are those of `a` followed by those of `b`.
pub proof fn lemma_decode_at_whitespace(a: Seq<char>, w: char, b: Seq<char>)
    requires
        is_whitespace(w),
    ensures
        line_tokens(a + seq![w] + b, MorseCommand::Decode) == line_tokens(a, MorseCommand::Decode)
            + line_tokens(b, MorseCommand::Decode),
        all_named(line_tokens(a + seq![w] + b, MorseCommand::Decode)) == (all_named(
            line_tokens(a, MorseCommand::Decode),
        ) && all_named(line_tokens(b, MorseCommand::Decode))),
        rendered_line(a + seq![w] + b, MorseCommand::Decode) == rendered_line(a, MorseCommand::Decode)
            + rendered_line(b, MorseCommand::Decode),
{
    lemma_split_at_whitespace(a, w, b);
    let ta = split_words(a);
    let tb = split_words(b);
    let t = ta + tb;
    if all_named(ta) && all_named(tb) {
        assert forall|i: int| 0 <= i < t.len() implies (#[trigger] symbol_named_by(t[i])) is Some by {
            if i < ta.len() {
                assert(t[i] == ta[i]);
            } else {
                assert(t[i] == tb[i - ta.len()]);
            }
        }
    }
    if all_named(t) {
        assert forall|i: int| 0 <= i < ta.len() implies (#[trigger] symbol_named_by(ta[i])) is Some by {
            assert(t[i] == ta[i]);
        }
        assert forall|i: int| 0 <= i < tb.len() implies (#[trigger] symbol_named_by(tb[i])) is Some by {
            assert(t[i + ta.len()] == tb[i]);
        }
    }
    assert(named_symbols(t) =~= named_symbols(ta) + named_symbols(tb));
    assert(ascii_bytes(named_symbols(t)) =~= ascii_bytes(named_symbols(ta)) + ascii_bytes(named_symbols(tb)));
}

/// Decoding one word, with or without whitespace after it, gives the one
/// symbol that the word names.
pub proof fn lemma_decode_word(t: Seq<char>, w: char)
    requires
        t.len() > 0,
        forall|i: int| 0 <= i < t.len() ==> !is_whitespace(#[trigger] t[i]),
        symbol_named_by(t) is Some,
        is_whitespace(w),
    ensures
        all_named(line_tokens(t, MorseCommand::Decode)),
        rendered_line(t, MorseCommand::Decode) == seq![symbol_named_by(t).unwrap() as u8],
        rendered_line(t + seq![w], MorseCommand::Decode) == rendered_line(t, MorseCommand::Decode),
{
    lemma_split_single_word(t);
    assert(line_tokens(t, MorseCommand::Decode)[0] == t);
    assert(ascii_bytes(named_symbols(seq![t])) =~= seq![symbol_named_by(t).unwrap() as u8]);
    lemma_decode_at_whitespace(t, w, Seq::empty());
    assert(t + seq![w] + Seq::<char>::empty() =~= t + seq![w]);
    assert(split_words(Seq::<char>::empty()) =~= Seq::<Seq<char>>::empty());
    assert(rendered_line(t, MorseCommand::Decode) + rendered_line(Seq::empty(), MorseCommand::Decode)
        =~= rendered_line(t, MorseCommand::Decode));
}

/// The text output of lines one after another is the text output of the
/// first lines followed by that of the others.
pub proof fn lemma_text_output_append(a: Seq<Seq<char>>, b: Seq<Seq<char>>, command: MorseCommand)
    ensures
        text_output(a + b, command) == text_output(a, command) + text_output(b, command),
    decreases b.len(),
{
    if b.len() == 0 {
        assert(a + b =~= a);
    } else {
        lemma_text_output_append(a, b.drop_last(), command);
        assert((a + b).drop_last() =~= a + b.drop_last());
        assert((a + b).last() == b.last());
    }
}

/// The text output of one line is its translation followed by `\n`.
pub proof fn lemma_text_output_single(line: Seq<char>, command: MorseCommand)
    ensures
        text_output(seq![line], command) == rendered_line(line, command) + seq![10u8],
{
    assert(seq![line].drop_last() =~= Seq::<Seq<char>>::empty());
    assert(seq![line].last() == line);
    assert(text_output(Seq::<Seq<char>>::empty(), command) =~= Seq::<u8>::empty());
    assert(Seq::<u8>::empty() + rendered_line(line, command) + seq![10u8] =~= rendered_line(line, command) + seq![10u8]);
}

/// The sound of one mark is its tone followed by the separation.
pub proof fn lemma_code_samples_mark(mark: char, tones: Tones)
    ensures
        code_samples(seq![mark], tones) == tone_of(tones, mark) + tones.separation@,
{
    assert(seq![mark].drop_last() =~= Seq::<char>::empty());
    assert(seq![mark].last() == mark);
    assert(code_samples(seq![mark].drop_last(), tones) =~= Seq::<i16>::empty());
    assert(Seq::<i16>::empty() + tone_of(tones, mark) + tones.separation@ =~= tone_of(tones, mark) + tones.separation@);
}

/// The sound of a code is the sound of its marks one after the other, for
/// codes of any length: the sound of `a` then `b` is the sound of `a`
/// followed by the sound of `b`.
pub proof fn lemma_code_samples_append(a: Seq<char>, b: Seq<char>, tones: Tones)
    ensures
        code_samples(a + b, tones) == code_samples(a, tones) + code_samples(b, tones),
    decreases b.len(),
{
    if b.len() == 0 {
        assert(a + b =~= a);
        assert(code_samples(a, tones) + code_samples(b, tones) =~= code_samples(a, tones));
    } else {
        lemma_code_samples_append(a, b.drop_last(), tones);
        assert((a + b).drop_last() =~= a + b.drop_last());
        assert((a + b).last() == b.last());
    }
}

/// The sound of one symbol is the sound of its Morse code.
pub proof fn lemma_audio_samples_symbol(c: char, tones: Tones)
    ensures
        audio_samples(seq![c], tones) == code_samples(morse_code(c), tones),
{
    assert(seq![c].drop_last() =~= Seq::<char>::empty());
    assert(seq![c].last() == c);
    assert(audio_samples(seq![c].drop_last(), tones) =~= Seq::<i16>::empty());
    assert(Seq::<i16>::empty() + code_samples(morse_code(c), tones) =~= code_samples(morse_code(c), tones));
}

/// The 16-bit little-endian word at `i`.
pub open spec fn word_at(bytes: Seq<u8>, i: int) -> int {
    bytes[i] + 256 * bytes[i + 1]
}

/// The 32-bit little-endian word at `i`.
pub open spec fn dword_at(bytes: Seq<u8>, i: int) -> int {
    bytes[i] + 256 * bytes[i + 1] + 65536 * bytes[i + 2] + 16777216 * bytes[i + 3]
}

/// The 16-bit two's-complement encoding of a sample.
pub open spec fn twos_complement(v: i16) -> int {
    if v < 0 {
        v + 65536
    } else {
        v as int
    }
}

proof fn lemma_le16(v: u16)
    ensures
        le16(v).len() == 2,
        word_at(le16(v), 0) == v,
{
    assert(((v % 256) as u8) + 256 * ((v / 256) as u8) == v) by (bit_vector);
}

proof fn lemma_le32(v: u32)
    ensures
        le32(v).len() == 4,
        dword_at(le32(v), 0) == v,
{
    assert(((v % 256) as u8) + 256 * (((v / 256) % 256) as u8) + 65536 * (((v / 65536) % 256) as u8)
        + 16777216 * ((v / 16777216) as u8) == v) by (bit_vector);
}

proof fn lemma_sample_word(v: i16)
    ensures
        (v as u16) as int == twos_complement(v),
{
    assert((v as u16) as int == if v < 0 { v + 65536 } else { v as int }) by (bit_vector);
}

/// The sample bytes hold two bytes per sample, and each pair read as a
/// little-endian word is the sample in 16-bit two's complement.
pub proof fn lemma_pcm_bytes(samples: Seq<i16>)
    ensures
        pcm_bytes(samples).len() == 2 * samples.len(),
        forall|i: int| 0 <= i < samples.len() ==> #[trigger] word_at(pcm_bytes(samples), 2 * i)
            == twos_complement(samples[i]),
    decreases samples.len(),
{
    if samples.len() > 0 {
        let rest = samples.drop_last();
        let v = samples.last();
        lemma_pcm_bytes(rest);
        lemma_le16(v as u16);
        lemma_sample_word(v);
        let p = pcm_bytes(samples);
        let pr = pcm_bytes(rest);
        assert(p == pr + le16(v as u16));
        assert forall|i: int| 0 <= i < samples.len() implies #[trigger] word_at(p, 2 * i)
            == twos_complement(samples[i]) by {
            if i < rest.len() {
                assert(p[2 * i] == pr[2 * i]);
                assert(p[2 * i + 1] == pr[2 * i + 1]);
                assert(word_at(pr, 2 * i) == twos_complement(rest[i]));
            } else {
                assert(p[2 * i] == le16(v as u16)[0]);
                assert(p[2 * i + 1] == le16(v as u16)[1]);
            }
        }
    }
}

/// The layout of the WAVE file of `samples`: the `RIFF`, `WAVE`, `fmt ` and
/// `data` tags at their places, the sizes, the PCM format of one channel of
/// 16-bit samples at `sample_rate`, and then every sample as a little-endian
/// two's-complement word.
#[verifier::rlimit(40)]
pub proof fn lemma_wav_layout(sample_rate: u32, samples: Seq<i16>)
    requires
        wav_fits(sample_rate, samples.len()),
    ensures
        ({
            let b = wav_header(sample_rate, (2 * samples.len()) as u32) + pcm_bytes(samples);
            &&& b.len() == 44 + 2 * samples.len()
            &&& b.subrange(0, 4) == seq![82u8, 73u8, 70u8, 70u8]
            &&& dword_at(b, 4) == 36 + 2 * samples.len()
            &&& b.subrange(8, 16) == seq![87u8, 65u8, 86u8, 69u8, 102u8, 109u8, 116u8, 32u8]
            &&& dword_at(b, 16) == 16
            &&& word_at(b, 20) == 1
            &&& word_at(b, 22) == 1
            &&& dword_at(b, 24) == sample_rate
            &&& dword_at(b, 28) == 2 * sample_rate
            &&& word_at(b, 32) == 2
            &&& word_at(b, 34) == 16
            &&& b.subrange(36, 40) == seq![100u8, 97u8, 116u8, 97u8]
            &&& dword_at(b, 40) == 2 * samples.len()
            &&& forall|i: int| 0 <= i < samples.len() ==> #[trigger] word_at(b, 44 + 2 * i)
                == twos_complement(samples[i])
        }),
{
    let n = samples.len();
    let d = (2 * n) as u32;
    let riff = (36 + d) as u32;
    let rate2 = (2 * sample_rate) as u32;
    lemma_le32(riff);
    lemma_le32(16);
    lemma_le16(1);
    lemma_le32(sample_rate);
    lemma_le32(rate2);
    lemma_le16(2);
    lemma_le16(16);
    lemma_le32(d);
    lemma_pcm_bytes(samples);
    let h = wav_header(sample_rate, d);
    let p = pcm_bytes(samples);
    let b = h + p;
    let seg = seq![82u8, 73u8, 70u8, 70u8] + le32(riff) + seq![87u8, 65u8, 86u8, 69u8]
        + seq![102u8, 109u8, 116u8, 32u8] + le32(16) + le16(1) + le16(1) + le32(sample_rate)
        + le32(rate2) + le16(2) + le16(16) + seq![100u8, 97u8, 116u8, 97u8] + le32(d);
    assert(h == seg);
    assert(h.len() == 44);
    assert(b.subrange(0, 4) =~= seq![82u8, 73u8, 70u8, 70u8]);
    assert(b.subrange(8, 16) =~= seq![87u8, 65u8, 86u8, 69u8, 102u8, 109u8, 116u8, 32u8]);
    assert(b.subrange(36, 40) =~= seq![100u8, 97u8, 116u8, 97u8]);
    assert(dword_at(b, 4) == dword_at(le32(riff), 0));
    assert(dword_at(b, 16) == dword_at(le32(16), 0));
    assert(word_at(b, 20) == word_at(le16(1), 0));
    assert(word_at(b, 22) == word_at(le16(1), 0));
    assert(dword_at(b, 24) == dword_at(le32(sample_rate), 0));
    assert(dword_at(b, 28) == dword_at(le32(rate2), 0));
    assert(word_at(b, 32) == word_at(le16(2), 0));
    assert(word_at(b, 34) == word_at(le16(16), 0));
    assert(dword_at(b, 40) == dword_at(le32(d), 0));
    assert forall|i: int| 0 <= i < n implies #[trigger] word_at(b, 44 + 2 * i) == twos_complement(samples[i]) by {
        assert(b[44 + 2 * i] == p[2 * i]);
        assert(b[44 + 2 * i + 1] == p[2 * i + 1]);
        assert(word_at(p, 2 * i) == twos_complement(samples[i]));
    }
}

} // verus!
