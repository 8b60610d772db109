//! The sound of Morse code: a run of samples for each dot, dash and slash.
use vstd::prelude::*;
use crate::letter::{Letter, morse_code, symbols_of};

verus! {

/// The samples that stand for each mark of Morse code, the pause that
/// follows each mark, and the rate at which the samples are played.
pub struct Tones {
    /// Samples per second.
    pub sample_rate: u32,
    /// The sound of a dot.
    pub dot: Vec<i16>,
    /// The sound of a dash.
    pub line: Vec<i16>,
    /// The sound of the slash that separates words.
    pub slash: Vec<i16>,
    /// The pause after each mark.
    pub separation: Vec<i16>,
}

/// The sound of one mark of Morse code: a dot, a dash or a slash; any other
/// character has no sound.
pub open spec fn tone_of(tones: Tones, mark: char) -> Seq<i16> {
    if mark == '.' {
        tones.dot@
    } else if mark == '-' {
        tones.line@
    } else if mark == '/' {
        tones.slash@
    } else {
        Seq::empty()
    }
}

/// The sound of a Morse code: each mark's sound, each followed by the pause.
pub open spec fn code_samples(code: Seq<char>, tones: Tones) -> Seq<i16>
    decreases code.len(),
{
    if code.len() == 0 {
        Seq::empty()
    } else {
        code_samples(code.drop_last(), tones) + tone_of(tones, code.last()) + tones.separation@
    }
}

/// The sound of a sequence of symbols: the sound of each symbol's code, in order.
pub open spec fn audio_samples(symbols: Seq<char>, tones: Tones) -> Seq<i16>
    decreases symbols.len(),
{
    if symbols.len() == 0 {
        Seq::empty()
    } else {
        audio_samples(symbols.drop_last(), tones) + code_samples(morse_code(symbols.last()), tones)
    }
}

fn push_all(out: &mut Vec<i16>, samples: &Vec<i16>)
    ensures
        final(out)@ == old(out)@ + samples@,
{
    let ghost start = out@;
    let mut i: usize = 0;
    while i < samples.len()
        invariant
            i <= samples@.len(),
            out@ == start + samples@.take(i as int),
        decreases samples@.len() - i,
    {
        out.push(samples[i]);
        assert(samples@.take(i + 1) =~= samples@.take(i as int).push(samples@[i as int]));
        i = i + 1;
    }
    assert(samples@.take(samples@.len() as int) =~= samples@);
}

impl Letter {
    /// The sound of `args`: for every mark of every letter's code, the mark's
    /// tone followed by the separation.
    pub fn concat_audio(args: &[Letter], tones: &Tones) -> (r: Vec<i16>)
        ensures
            r@ == audio_samples(symbols_of(args@), *tones),
    {
        let mut out: Vec<i16> = Vec::new();
        let mut i: usize = 0;
        while i < args.len()
            invariant
                i <= args@.len(),
                out@ == audio_samples(symbols_of(args@.take(i as int)), *tones),
            decreases args@.len() - i,
        {
            let code = args[i].code();
            let ghost before = out@;
            let mut j: usize = 0;
            while j < code.len()
                invariant
                    j <= code@.len(),
                    code@ == morse_code(args@[i as int]@),
                    out@ == before + code_samples(code@.take(j as int), *tones),
                decreases code@.len() - j,
            {
                let mark = code[j];
                if mark == '.' {
                    push_all(&mut out, &tones.dot);
                } else if mark == '-' {
                    push_all(&mut out, &tones.line);
                } else if mark == '/' {
                    push_all(&mut out, &tones.slash);
                }
                push_all(&mut out, &tones.separation);
                assert(code@.take(j + 1).drop_last() =~= code@.take(j as int));
                j = j + 1;
            }
            assert(code@.take(code@.len() as int) =~= code@);
            assert(symbols_of(args@.take(i + 1)).drop_last() =~= symbols_of(args@.take(i as int)));
            i = i + 1;
        }
        assert(args@.take(args@.len() as int) =~= args@);
        out
    }
}

} // verus!
