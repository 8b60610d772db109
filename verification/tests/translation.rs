use morse_traducer::audio::Tones;
use morse_traducer::parser::{MorseCommand, MorseTraductionType};
use morse_traducer::translator::{
    MorseTranslator, StreamedMorseTranslator, TranslationError, TranslatorBuilder,
};
use morse_traducer::Letter;
use morse_traducer::wav::wav_file;
use morse_traducer::words::split_whitespace;
use std::io::{Cursor, Seek, SeekFrom, Write};
use std::str::from_utf8;

type Translator = StreamedMorseTranslator<Cursor<Vec<u8>>>;

fn no_tones() -> Tones {
    Tones { sample_rate: 8000, dot: vec![], line: vec![], slash: vec![], separation: vec![] }
}

fn small_tones() -> Tones {
    Tones { sample_rate: 8000, dot: vec![1], line: vec![2, 2], slash: vec![0, 0, 0], separation: vec![-1] }
}

fn translator(lines: &[&str], kind: MorseTraductionType) -> Translator {
    let input: Vec<String> = lines.iter().map(|l| l.to_string()).collect();
    TranslatorBuilder::new()
        .input_stream(input)
        .output_stream(Cursor::new(Vec::new()))
        .traduction_type(kind)
        .build_streamed()
        .unwrap()
}

fn encode(line: &str) -> Vec<Letter> {
    <Translator as MorseTranslator<&str, Vec<Letter>, Result<Vec<u8>, TranslationError>>>::encode(line)
}

fn decode(line: &str) -> Vec<Letter> {
    <Translator as MorseTranslator<&str, Vec<Letter>, Result<Vec<u8>, TranslationError>>>::decode(line)
}

#[test]
fn test_main() {
    let output: Cursor<Vec<u8>> = Default::default();
    let input = vec!["Hello World".into()];
    let mut translator = TranslatorBuilder::new()
        .input_stream(input)
        .output_stream(output)
        .build_streamed()
        .unwrap();
    translator.check(MorseCommand::Encode).unwrap();
    let bytes = translator.translate(MorseCommand::Encode, &no_tones()).unwrap();
    translator.output_stream.write_all(&bytes).unwrap();
    translator.output_stream.flush().unwrap();
    translator.output_stream.seek(SeekFrom::Start(0)).unwrap();
    let result = from_utf8(translator.output_stream.get_ref());
    println!("{:?}", result);
    assert_eq!(result, Ok(".... . .-.. .-.. --- / .-- --- .-. .-.. -.. \n"));
}

#[test]
fn from_str_reads_symbols_and_codes() {
    let a = Letter::from_str("a").unwrap();
    assert_eq!(Letter::from_str("A").unwrap(), a);
    assert_eq!(Letter::from_str(".-").unwrap(), a);
    assert_eq!(Letter::from_str(" ").unwrap(), Letter::from_str("/").unwrap());
    assert_eq!(Letter::from_str("0").unwrap(), Letter::from_str("-----").unwrap());
    assert_eq!(Letter::from_str("9").unwrap(), Letter::from_str("----.").unwrap());
    assert_ne!(Letter::from_str("e").unwrap(), a);
    let parsed: Letter = "Z".parse().unwrap();
    assert_eq!(parsed, Letter::from_str("--..").unwrap());
}

#[test]
fn from_str_rejects_unknown_strings() {
    assert_eq!(
        Letter::from_str("ab"),
        Err("No representation found for the string: ab".to_string())
    );
    assert_eq!(Letter::from_str(""), Err("No representation found for the string: ".to_string()));
    assert_eq!(Letter::from_str("......"), Err("No representation found for the string: ......".to_string()));
    assert_eq!(Letter::from_str("é"), Err("No representation found for the string: é".to_string()));
    assert!(Letter::from_str(",").is_err());
}

#[test]
fn code_of_each_letter() {
    assert_eq!(Letter::from_str("s").unwrap().code(), vec!['.', '.', '.']);
    assert_eq!(Letter::from_str("o").unwrap().code(), vec!['-', '-', '-']);
    assert_eq!(Letter::from_str(" ").unwrap().code(), vec!['/']);
}

#[test]
fn concat_morse_and_text() {
    let letters = encode("SOS 1");
    assert_eq!(Letter::concat_morse(&letters), b"... --- ... / .---- ".to_vec());
    assert_eq!(Letter::concat_text(&letters), b"sos 1".to_vec());
    assert_eq!(Letter::concat_morse(&[]), Vec::<u8>::new());
}

#[test]
fn encode_reads_single_characters() {
    let letters = encode(".-/");
    assert_eq!(Letter::concat_text(&letters), b"et ".to_vec());
}

#[test]
fn decode_reads_words() {
    let letters = decode("  .-   -... \t/ A\u{a0}-.-.");
    assert_eq!(Letter::concat_text(&letters), b"ab ac".to_vec());
}

#[test]
fn split_whitespace_words() {
    assert_eq!(split_whitespace("  a\t bc \n"), vec!["a", "bc"]);
    assert_eq!(split_whitespace(""), Vec::<&str>::new());
    assert_eq!(split_whitespace("   "), Vec::<&str>::new());
    assert_eq!(split_whitespace("x\u{3000}y"), vec!["x", "y"]);
    assert_eq!(split_whitespace("x,y"), vec!["x,y"]);
}

#[test]
fn encode_then_decode_roundtrip() {
    let line = "The Quick brown fox 1234567890";
    let morse = Letter::concat_morse(&encode(line));
    let morse_line = String::from_utf8(morse).unwrap();
    let back = decode(&morse_line);
    assert_eq!(back, encode(line));
    assert_eq!(Letter::concat_text(&back), line.to_ascii_lowercase().into_bytes());
}

#[test]
fn text_translation_of_several_lines() {
    let t = translator(&["ab", "", "C d"], MorseTraductionType::Text);
    assert_eq!(t.check(MorseCommand::Encode), Ok(()));
    let out = t.translate(MorseCommand::Encode, &no_tones()).unwrap();
    assert_eq!(out, b".- -... \n\n-.-. / -.. \n".to_vec());

    let back_lines: Vec<&str> = from_utf8(&out).unwrap().lines().collect();
    let t2 = translator(&back_lines, MorseTraductionType::Text);
    assert_eq!(t2.check(MorseCommand::Decode), Ok(()));
    assert_eq!(t2.translate(MorseCommand::Decode, &no_tones()).unwrap(), b"ab\n\nc d\n".to_vec());
}

#[test]
fn check_reports_first_unknown_token() {
    let t = translator(&["ok", "Hello, World!", "?"], MorseTraductionType::Text);
    assert_eq!(
        t.check(MorseCommand::Encode),
        Err("No representation found for the string: ,".to_string())
    );
    let t = translator(&[".- ..--..", "x"], MorseTraductionType::Text);
    assert_eq!(
        t.check(MorseCommand::Decode),
        Err("No representation found for the string: ..--..".to_string())
    );
}

#[test]
fn concat_audio_sequence() {
    let letters = encode("a ");
    let samples = Letter::concat_audio(&letters, &small_tones());
    assert_eq!(samples, vec![1, -1, 2, 2, -1, 0, 0, 0, -1]);
}

#[test]
fn audio_translation_is_a_wave_file() {
    let t = translator(&["e", "t"], MorseTraductionType::Audio);
    let out = t.translate(MorseCommand::Encode, &small_tones()).unwrap();
    assert_eq!(t.samples(MorseCommand::Encode, &small_tones()), vec![1, -1, 2, 2, -1]);
    assert_eq!(out.len(), 44 + 10);
    assert_eq!(&out[0..4], b"RIFF");
    assert_eq!(&out[4..8], &(36u32 + 10).to_le_bytes());
    assert_eq!(&out[8..16], b"WAVEfmt ");
    assert_eq!(&out[24..28], &8000u32.to_le_bytes());
    assert_eq!(&out[36..40], b"data");
    assert_eq!(&out[40..44], &10u32.to_le_bytes());
    assert_eq!(&out[44..], &[1, 0, 255, 255, 2, 0, 2, 0, 255, 255]);
}

#[test]
fn wav_file_of_no_samples() {
    let bytes = wav_file(44100, &[]).unwrap();
    assert_eq!(
        bytes,
        vec![
            82, 73, 70, 70, 36, 0, 0, 0, 87, 65, 86, 69, 102, 109, 116, 32, 16, 0, 0, 0, 1, 0, 1, 0,
            0x44, 0xac, 0, 0, 0x88, 0x58, 1, 0, 2, 0, 16, 0, 100, 97, 116, 97, 0, 0, 0, 0
        ]
    );
    assert_eq!(wav_file(u32::MAX, &[]), None);
}

#[test]
fn builder_keeps_what_was_set() {
    let b: TranslatorBuilder<u8> = StreamedMorseTranslator::builder();
    let t = b.output_stream(7).input_stream(vec!["a".to_string()]).build_streamed().unwrap();
    assert_eq!(t.output_stream, 7);
    assert_eq!(t.traduction_type, MorseTraductionType::Text);
    let t = TranslatorBuilder::default()
        .traduction_type(MorseTraductionType::Audio)
        .input_stream(vec![])
        .output_stream(())
        .build_streamed()
        .unwrap();
    assert_eq!(t.traduction_type, MorseTraductionType::Audio);
}

#[test]
fn audio_rate_too_high_is_an_error() {
    let t = translator(&["e"], MorseTraductionType::Audio);
    let mut tones = small_tones();
    tones.sample_rate = u32::MAX;
    assert_eq!(t.translate(MorseCommand::Encode, &tones), Err(TranslationError::AudioTooLarge));
}

#[test]
fn audio_of_lines_is_audio_of_all_letters() {
    let t = translator(&["ab", "c 1"], MorseTraductionType::Audio);
    let mut all = encode("ab");
    all.extend(encode("c 1"));
    assert_eq!(
        t.samples(MorseCommand::Encode, &small_tones()),
        Letter::concat_audio(&all, &small_tones())
    );
}

#[test]
fn reading_ignores_case() {
    for (upper, lower) in [("Q", "q"), ("Z", "z"), ("7", "7")] {
        assert_eq!(Letter::from_str(upper), Letter::from_str(lower));
    }
    assert_eq!(decode("-.-- .- .... --- --- "), decode("-.-- .- .... --- ---"));
}
