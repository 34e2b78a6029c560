use vstd::prelude::*;

verus! {

/// The file name ends in `.wav` with a non-empty part before the dot, so the
/// dot-suffix counts as an extension rather than as a leading dot.
pub open spec fn is_wav_name(name: Seq<char>) -> bool {
    name.len() >= 5 && name.subrange(name.len() - 4, name.len() as int) == ".wav"@
}

/// The registration name of a sound file: everything before the extension.
pub open spec fn wav_stem_spec(name: Seq<char>) -> Seq<char> {
    name.subrange(0, name.len() - 4)
}

/// The name a sound file is registered under: the file name with its `.wav`
/// extension stripped; `None` for any file that is not a loadable sound.
pub fn wav_stem(name: &str) -> (r: Option<String>)
    ensures
        r is Some <==> is_wav_name(name@),
        r is Some ==> r->Some_0@ == wav_stem_spec(name@),
{
    let n = name.unicode_len();
    if n < 5 {
        proof {
            reveal_strlit(".wav");
        }
        return None;
    }
    let c0 = name.get_char(n - 4);
    let c1 = name.get_char(n - 3);
    let c2 = name.get_char(n - 2);
    let c3 = name.get_char(n - 1);
    if c0 == '.' && c1 == 'w' && c2 == 'a' && c3 == 'v' {
        proof {
            reveal_strlit(".wav");
            assert(name@.subrange(n - 4, n as int) =~= ".wav"@);
        }
        let stem = name.substring_char(0, n - 4);
        Some(stem.to_owned())
    } else {
        proof {
            reveal_strlit(".wav");
            if is_wav_name(name@) {
                let tail = name@.subrange(n - 4, n as int);
                assert(tail[0] == '.' && tail[1] == 'w' && tail[2] == 'a' && tail[3] == 'v');
                assert(c0 == name@[n - 4] && c1 == name@[n - 3] && c2 == name@[n - 2] && c3
                    == name@[n - 1]);
            }
        }
        None
    }
}

} // verus!
