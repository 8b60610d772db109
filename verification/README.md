# morse_traducer

Translates lines of text to Morse code and Morse code back to text, as text
or as a WAVE sound file, with the translation logic verified by Verus.

- `src/letter.rs`: the alphabet, `Letter`, reading a letter from a string and
  writing letters as Morse code or text.
- `src/words.rs`: splitting a line at Unicode whitespace.
- `src/audio.rs`: the sample sequence of Morse code, from the tones of its marks.
- `src/wav.rs`: the WAVE file of a sample sequence.
- `src/parser.rs`, `src/translator.rs`: the builder and the translator, which
  renders whole inputs as output bytes.
- `src/laws.rs`: proofs of what holds across functions, such as that decoding
  the Morse code of a line gives its letters back.
- `app/`: the command line, file I/O and the floating-point synthesis of the tones.
