//! Translating lines of text to Morse code and back, as text or as sound.
use vstd::prelude::*;
use crate::audio::{Tones, audio_samples};
use crate::parser::{MorseCommand, MorseTraductionType};
use crate::wav::{pcm_bytes, wav_file, wav_fits, wav_header};
use crate::letter::{Letter, ascii_bytes, morse_line, no_representation_message, symbol_named_by, symbols_of};
use crate::words::{split_whitespace, split_words, views_of};

verus! {

/// Why a translation gave no output.
#[derive(Clone, Copy, Debug, PartialEq, Eq, Structural)]
pub enum TranslationError {
    /// The sound is too long, or its rate too high, for the sizes of a WAVE header.
    AudioTooLarge,
}

/// The strings that a line is read as, one letter each: every character when
/// encoding, every whitespace-separated word when decoding.
pub open spec fn line_tokens(line: Seq<char>, command: MorseCommand) -> Seq<Seq<char>> {
    match command {
        MorseCommand::Encode => line.map_values(|c: char| seq![c]),
        MorseCommand::Decode => split_words(line),
    }
}

/// Every token names a symbol.
pub open spec fn all_named(tokens: Seq<Seq<char>>) -> bool {
    forall|i: int| 0 <= i < tokens.len() ==> (#[trigger] symbol_named_by(tokens[i])) is Some
}

/// The symbols that the tokens name.
pub open spec fn named_symbols(tokens: Seq<Seq<char>>) -> Seq<char> {
    tokens.map_values(|t: Seq<char>| symbol_named_by(t).unwrap())
}

/// `tokens[k]` is the first token that names no symbol.
pub open spec fn is_first_unnamed(tokens: Seq<Seq<char>>, k: int) -> bool {
    &&& 0 <= k < tokens.len()
    &&& symbol_named_by(tokens[k]) is None
    &&& all_named(tokens.take(k))
}

/// Every line can be translated in the given direction.
pub open spec fn all_translatable(lines: Seq<Seq<char>>, command: MorseCommand) -> bool {
    forall|j: int| 0 <= j < lines.len() ==> all_named(#[trigger] line_tokens(lines[j], command))
}

/// The symbols that a line translates to.
pub open spec fn line_symbols(line: Seq<char>, command: MorseCommand) -> Seq<char> {
    named_symbols(line_tokens(line, command))
}

/// The text that one line translates to, without its line end: Morse code
/// when encoding, plain text when decoding.
pub open spec fn rendered_line(line: Seq<char>, command: MorseCommand) -> Seq<u8> {
    match command {
        MorseCommand::Encode => morse_line(line_symbols(line, command)),
        MorseCommand::Decode => ascii_bytes(line_symbols(line, command)),
    }
}

/// The text output of a translation: each line's translation followed by `\n`.
pub open spec fn text_output(lines: Seq<Seq<char>>, command: MorseCommand) -> Seq<u8>
    decreases lines.len(),
{
    if lines.len() == 0 {
        Seq::empty()
    } else {
        text_output(lines.drop_last(), command) + rendered_line(lines.last(), command) + seq![10u8]
    }
}

/// The sound output of a translation: the sound of every line's letters, in order.
pub open spec fn audio_output(lines: Seq<Seq<char>>, command: MorseCommand, tones: Tones) -> Seq<i16>
    decreases lines.len(),
{
    if lines.len() == 0 {
        Seq::empty()
    } else {
        audio_output(lines.drop_last(), command, tones) + audio_samples(line_symbols(lines.last(), command), tones)
    }
}

/// What a translation to sound gives: the WAVE file of its samples, or an
/// error exactly where the sizes do not fit in the header.
pub open spec fn audio_result(
    r: Result<Vec<u8>, TranslationError>,
    lines: Seq<Seq<char>>,
    command: MorseCommand,
    tones: Tones,
) -> bool {
    let samples = audio_output(lines, command, tones);
    match r {
        Ok(bytes) => wav_fits(tones.sample_rate, samples.len()) && bytes@ == wav_header(
            tones.sample_rate,
            (2 * samples.len()) as u32,
        ) + pcm_bytes(samples),
        Err(e) => !wav_fits(tones.sample_rate, samples.len()) && e == TranslationError::AudioTooLarge,
    }
}

/// The views of a sequence of strings.
pub open spec fn string_views(strings: Seq<String>) -> Seq<Seq<char>> {
    strings.map_values(|s: String| s@)
}

/// Reads one letter from each word, stopping at the first that names none.
fn read_letters(words: &Vec<&str>) -> (r: Result<Vec<Letter>, String>)
    ensures
        r is Ok <==> all_named(views_of(words@)),
        r matches Ok(v) ==> symbols_of(v@) == named_symbols(views_of(words@)),
        r matches Err(e) ==> exists|k: int|
            is_first_unnamed(views_of(words@), k) && e@ == no_representation_message(views_of(words@)[k]),
{
    let ghost tokens = views_of(words@);
    let mut out: Vec<Letter> = Vec::new();
    let n = words.len();
    for i in 0..n
        invariant
            n == words@.len(),
            tokens == views_of(words@),
            all_named(tokens.take(i as int)),
            symbols_of(out@) == named_symbols(tokens.take(i as int)),
    {
        match Letter::from_str(words[i]) {
            Ok(l) => {
                let ghost before = out@;
                out.push(l);
                assert(symbols_of(out@) =~= symbols_of(before).push(l@));
                assert(tokens.take(i + 1) =~= tokens.take(i as int).push(tokens[i as int]));
                assert(symbols_of(out@) =~= named_symbols(tokens.take(i + 1)));
            },
            Err(e) => {
                assert(is_first_unnamed(tokens, i as int));
                return Err(e);
            },
        }
    }
    assert(tokens.take(n as int) =~= tokens);
    Ok(out)
}

/// Each character of `s` as a slice of its own.
fn char_slices(s: &str) -> (r: Vec<&str>)
    ensures
        views_of(r@) == s@.map_values(|c: char| seq![c]),
{
    let n = s.unicode_len();
    let mut out: Vec<&str> = Vec::new();
    for i in 0..n
        invariant
            n == s@.len(),
            views_of(out@) == s@.take(i as int).map_values(|c: char| seq![c]),
    {
        let piece = s.substring_char(i, i + 1);
        let ghost before = out@;
        out.push(piece);
        assert(views_of(out@) =~= views_of(before).push(piece@));
        assert(s@.take(i + 1).map_values(|c: char| seq![c]) =~= s@.take(i as int).map_values(|c: char| seq![c]).push(seq![s@[i as int]]));
        assert(piece@ =~= seq![s@[i as int]]);
        assert(views_of(out@) =~= s@.take(i + 1).map_values(|c: char| seq![c]));
    }
    assert(s@.take(n as int) =~= s@);
    out
}

/// The letters of a line, or the error of its first token that names none.
fn line_letters(line: &str, command: MorseCommand) -> (r: Result<Vec<Letter>, String>)
    ensures
        r is Ok <==> all_named(line_tokens(line@, command)),
        r matches Ok(v) ==> symbols_of(v@) == line_symbols(line@, command),
        r matches Err(e) ==> exists|k: int|
            is_first_unnamed(line_tokens(line@, command), k)
                && e@ == no_representation_message(line_tokens(line@, command)[k]),
{
    let words = match command {
        MorseCommand::Encode => char_slices(line),
        MorseCommand::Decode => split_whitespace(line),
    };
    read_letters(&words)
}

/// Translates lines of text in one direction or the other.
pub trait MorseTranslator<T, W, R> {
    /// Every input line can be translated in the given direction.
    spec fn accepts(&self, command: MorseCommand) -> bool;

    /// `raw_data` can be encoded.
    spec fn encodable(raw_data: T) -> bool;

    /// `raw_data` can be decoded.
    spec fn decodable(raw_data: T) -> bool;

    /// Translates the input in the form that the translator was built for.
    fn translate(&self, command: MorseCommand, tones: &Tones) -> R
        requires
            self.accepts(command),
    ;

    /// Translates the input to text.
    fn translate_to_text(&self, command: MorseCommand) -> R
        requires
            self.accepts(command),
    ;

    /// Translates the input to sound.
    fn translate_to_audio(&self, command: MorseCommand, tones: &Tones) -> R
        requires
            self.accepts(command),
    ;

    /// The letters of a line of text.
    fn encode(raw_data: T) -> W
        requires
            Self::encodable(raw_data),
    ;

    /// The letters of a line of Morse code.
    fn decode(raw_data: T) -> W
        requires
            Self::decodable(raw_data),
    ;
}

/// A translator of lines of input, with the sink that its output goes to.
pub struct StreamedMorseTranslator<T> {
    input_stream: Vec<String>,
    pub output_stream: T,
    pub traduction_type: MorseTraductionType,
}

impl<T> StreamedMorseTranslator<T> {
    /// The input lines.
    pub closed spec fn lines(&self) -> Seq<Seq<char>> {
        string_views(self.input_stream@)
    }

    /// The form of output that the translator gives.
    pub closed spec fn kind(&self) -> MorseTraductionType {
        self.traduction_type
    }

    /// The output sink.
    pub closed spec fn output(&self) -> T {
        self.output_stream
    }

    /// A builder with nothing set and text output.
    pub fn builder() -> (r: TranslatorBuilder<T>)
        ensures
            r.kind() == MorseTraductionType::Text,
            r.lines() is None,
            r.output() is None,
    {
        TranslatorBuilder::default()
    }

    /// Whether every input line can be translated in the given direction; if
    /// not, the error of the first token of the first such line that names no
    /// symbol.
    pub fn check(&self, command: MorseCommand) -> (r: Result<(), String>)
        ensures
            r is Ok <==> all_translatable(self.lines(), command),
            r matches Err(e) ==> exists|j: int, k: int|
                0 <= j < self.lines().len() && all_translatable(self.lines().take(j), command)
                    && is_first_unnamed(line_tokens(self.lines()[j], command), k)
                    && e@ == no_representation_message(line_tokens(self.lines()[j], command)[k]),
    {
        let ghost lines = self.lines();
        let n = self.input_stream.len();
        for j in 0..n
            invariant
                n == lines.len(),
                lines == self.lines(),
                all_translatable(lines.take(j as int), command),
        {
            match line_letters(self.input_stream[j].as_str(), command) {
                Ok(_) => {
                    assert forall|i: int| 0 <= i < j + 1 implies all_named(
                        #[trigger] line_tokens(lines.take(j + 1)[i], command),
                    ) by {
                        if i < j {
                            assert(lines.take(j + 1)[i] == lines.take(j as int)[i]);
                        }
                    }
                },
                Err(e) => {
                    proof {
                        let line = lines[j as int];
                        assert(line == self.input_stream@[j as int]@);
                        let k = choose|k: int|
                            is_first_unnamed(line_tokens(line, command), k)
                                && e@ == no_representation_message(line_tokens(line, command)[k]);
                        assert(!all_named(line_tokens(line, command)));
                        assert(0 <= j < lines.len() && all_translatable(lines.take(j as int), command)
                            && is_first_unnamed(line_tokens(lines[j as int], command), k)
                            && e@ == no_representation_message(line_tokens(lines[j as int], command)[k]));
                    }
                    return Err(e);
                },
            }
        }
        assert(lines.take(n as int) =~= lines);
        Ok(())
    }

    /// The samples of the sound of every line, in order.
    pub fn samples(&self, command: MorseCommand, tones: &Tones) -> (r: Vec<i16>)
        requires
            all_translatable(self.lines(), command),
        ensures
            r@ == audio_output(self.lines(), command, *tones),
    {
        let ghost lines = self.lines();
        let mut out: Vec<i16> = Vec::new();
        let n = self.input_stream.len();
        for j in 0..n
            invariant
                n == lines.len(),
                lines == self.lines(),
                all_translatable(lines, command),
                out@ == audio_output(lines.take(j as int), command, *tones),
        {
            assert(all_named(line_tokens(lines[j as int], command)));
            let letters = self.letters_of_line(j, command);
            let mut samples = Letter::concat_audio(letters.as_slice(), tones);
            out.append(&mut samples);
            assert(lines.take(j + 1).drop_last() =~= lines.take(j as int));
        }
        assert(lines.take(n as int) =~= lines);
        out
    }

    /// The letters of one line.
    fn letters_of_line(&self, j: usize, command: MorseCommand) -> (r: Vec<Letter>)
        requires
            j < self.lines().len(),
            all_named(line_tokens(self.lines()[j as int], command)),
        ensures
            symbols_of(r@) == line_symbols(self.lines()[j as int], command),
    {
        match line_letters(self.input_stream[j].as_str(), command) {
            Ok(v) => v,
            Err(_) => Vec::new(),
        }
    }
}

impl<'a, T> MorseTranslator<&'a str, Vec<Letter>, Result<Vec<u8>, TranslationError>> for StreamedMorseTranslator<T> {
    open spec fn accepts(&self, command: MorseCommand) -> bool {
        all_translatable(self.lines(), command)
    }

    open spec fn encodable(raw_data: &'a str) -> bool {
        all_named(line_tokens(raw_data@, MorseCommand::Encode))
    }

    open spec fn decodable(raw_data: &'a str) -> bool {
        all_named(line_tokens(raw_data@, MorseCommand::Decode))
    }

    fn translate(&self, command: MorseCommand, tones: &Tones) -> (r: Result<Vec<u8>, TranslationError>)
        ensures
            self.kind() == MorseTraductionType::Text ==> r is Ok && r->Ok_0@ == text_output(self.lines(), command),
            self.kind() == MorseTraductionType::Audio ==> audio_result(r, self.lines(), command, *tones),
    {
        match self.traduction_type {
            MorseTraductionType::Text => self.translate_to_text(command),
            MorseTraductionType::Audio => self.translate_to_audio(command, tones),
        }
    }

    fn translate_to_text(&self, command: MorseCommand) -> (r: Result<Vec<u8>, TranslationError>)
        ensures
            r is Ok && r->Ok_0@ == text_output(self.lines(), command),
    {
        let ghost lines = self.lines();
        let mut out: Vec<u8> = Vec::new();
        let n = self.input_stream.len();
        for j in 0..n
            invariant
                n == lines.len(),
                lines == self.lines(),
                all_translatable(lines, command),
                out@ == text_output(lines.take(j as int), command),
        {
            assert(all_named(line_tokens(lines[j as int], command)));
            let letters = self.letters_of_line(j, command);
            let mut rendered = match command {
                MorseCommand::Encode => Letter::concat_morse(letters.as_slice()),
                MorseCommand::Decode => Letter::concat_text(letters.as_slice()),
            };
            out.append(&mut rendered);
            out.push(10u8);
            assert(lines.take(j + 1).drop_last() =~= lines.take(j as int));
        }
        assert(lines.take(n as int) =~= lines);
        Ok(out)
    }

    fn translate_to_audio(&self, command: MorseCommand, tones: &Tones) -> (r: Result<Vec<u8>, TranslationError>)
        ensures
            audio_result(r, self.lines(), command, *tones),
    {
        let samples = self.samples(command, tones);
        match wav_file(tones.sample_rate, samples.as_slice()) {
            Some(bytes) => Ok(bytes),
            None => Err(TranslationError::AudioTooLarge),
        }
    }

    fn encode(raw_data: &'a str) -> (r: Vec<Letter>)
        ensures
            symbols_of(r@) == line_symbols(raw_data@, MorseCommand::Encode),
    {
        match line_letters(raw_data, MorseCommand::Encode) {
            Ok(v) => v,
            Err(_) => Vec::new(),
        }
    }

    fn decode(raw_data: &'a str) -> (r: Vec<Letter>)
        ensures
            symbols_of(r@) == line_symbols(raw_data@, MorseCommand::Decode),
    {
        match line_letters(raw_data, MorseCommand::Decode) {
            Ok(v) => v,
            Err(_) => Vec::new(),
        }
    }
}

/// Collects what a translator is built from.
pub struct TranslatorBuilder<T> {
    traduction_type: MorseTraductionType,
    input_stream: Option<Vec<String>>,
    output_stream: Option<T>,
}

impl<T> TranslatorBuilder<T> {
    /// The form of output that was chosen.
    pub closed spec fn kind(&self) -> MorseTraductionType {
        self.traduction_type
    }

    /// The input lines, if they were set.
    pub closed spec fn lines(&self) -> Option<Seq<Seq<char>>> {
        match self.input_stream {
            Some(v) => Some(string_views(v@)),
            None => None,
        }
    }

    /// The output sink, if it was set.
    pub closed spec fn output(&self) -> Option<T> {
        self.output_stream
    }

    /// A builder with nothing set and text output.
    pub fn new() -> (r: Self)
        ensures
            r.kind() == MorseTraductionType::Text,
            r.lines() is None,
            r.output() is None,
    {
        Self::default()
    }

    /// Sets the input lines.
    pub fn input_stream(self, input_stream: Vec<String>) -> (r: Self)
        ensures
            r.lines() == Some(string_views(input_stream@)),
            r.kind() == self.kind(),
            r.output() == self.output(),
    {
        TranslatorBuilder {
            traduction_type: self.traduction_type,
            input_stream: Some(input_stream),
            output_stream: self.output_stream,
        }
    }

    /// Sets the output sink.
    pub fn output_stream(self, out_stream: T) -> (r: Self)
        ensures
            r.output() == Some(out_stream),
            r.kind() == self.kind(),
            r.lines() == self.lines(),
    {
        TranslatorBuilder {
            traduction_type: self.traduction_type,
            input_stream: self.input_stream,
            output_stream: Some(out_stream),
        }
    }

    /// Sets the form of output.
    pub fn traduction_type(self, traduction_type: MorseTraductionType) -> (r: Self)
        ensures
            r.kind() == traduction_type,
            r.lines() == self.lines(),
            r.output() == self.output(),
    {
        TranslatorBuilder {
            traduction_type,
            input_stream: self.input_stream,
            output_stream: self.output_stream,
        }
    }

    /// The translator made of what was set; the input and the output must
    /// have been set.
    pub fn build_streamed(self) -> (r: Result<StreamedMorseTranslator<T>, String>)
        requires
            self.lines() is Some,
            self.output() is Some,
        ensures
            r matches Ok(t) && t.lines() == self.lines().unwrap() && t.output() == self.output().unwrap()
                && t.kind() == self.kind(),
    {
        match (self.input_stream, self.output_stream) {
            (Some(input_stream), Some(output_stream)) => Ok(
                StreamedMorseTranslator {
                    input_stream,
                    output_stream,
                    traduction_type: self.traduction_type,
                },
            ),
            _ => Err(String::new()),
        }
    }
}

impl<T> Default for TranslatorBuilder<T> {
    fn default() -> (r: Self)
        ensures
            r.kind() == MorseTraductionType::Text,
            r.lines() is None,
            r.output() is None,
    {
        TranslatorBuilder { input_stream: None, output_stream: None, traduction_type: MorseTraductionType::Text }
    }
}

} // verus!
