//! Choice of an output device and the layout of an output callback.
use vstd::prelude::*;
use vstd::string::*;

use crate::text::{
    contains_text, is_white, occurs_in, pieces_occur, trim, trim_spec, trim_takes_away_the_ends,
};

verus! {

/// Frames that a callback mixes at a time.
pub const MAX_MONO_FRAMES: usize = 4096;

/// How the wish for a device was met.
#[derive(Clone, Copy, Debug, PartialEq, Eq, Structural)]
pub enum OutputDeviceSelection {
    /// No device was asked for; the host's default is used.
    Default,
    /// A device's name contains the text asked for.
    Matched,
    /// No device's name does; the host's default is used instead.
    Fallback,
}

/// Lower case of a text, by Unicode's rules.
pub uninterp spec fn lowercased(s: Seq<char>) -> Seq<char>;

/// `str::to_lowercase`: the lower case of a text, which depends on the text
/// alone.
#[verifier::external_body]
fn to_lowercase(s: &str) -> (r: String)
    ensures
        r@ == lowercased(s@),
{
    s.to_lowercase()
}

/// The text asked for, without white space around it; none where nothing is
/// left.
pub open spec fn wish_of(substring: Option<Seq<char>>) -> Option<Seq<char>> {
    match substring {
        Some(s) => if trim_spec(s).len() == 0 {
            None
        } else {
            Some(trim_spec(s))
        },
        None => None,
    }
}

/// Whether a name, in lower case, contains a wish in lower case.
pub open spec fn name_matches(lower_name: Seq<char>, lower_wish: Seq<char>) -> bool {
    occurs_in(lower_wish, lower_name)
}

/// Position of the first of `names` that contains `needle`.
pub fn first_containing(names: &Vec<String>, needle: &str) -> (r: Option<usize>)
    ensures
        match r {
            Some(i) => i < names@.len() && name_matches(names@[i as int]@, needle@) && forall|
                j: int,
            |
                0 <= j < i ==> !name_matches(#[trigger] names@[j]@, needle@),
            None => forall|j: int|
                0 <= j < names@.len() ==> !name_matches(#[trigger] names@[j]@, needle@),
        },
{
    let mut i: usize = 0;
    while i < names.len()
        invariant
            i <= names@.len(),
            forall|j: int| 0 <= j < i ==> !name_matches(#[trigger] names@[j]@, needle@),
        decreases names@.len() - i,
    {
        if contains_text(names[i].as_str(), needle) {
            return Some(i);
        }
        i += 1;
    }
    None
}

/// Position of the first device whose name contains the text asked for,
/// whatever the case of either. None where nothing is asked for.
pub fn match_device_by_substring(names: &Vec<String>, substring: Option<&str>) -> (r: Option<
    usize,
>)
    ensures
        match wish_of(
            match substring {
                Some(s) => Some(s@),
                None => None,
            },
        ) {
            None => r is None,
            Some(wish) => match r {
                Some(i) => i < names@.len() && name_matches(
                    lowercased(names@[i as int]@),
                    lowercased(wish),
                ) && forall|j: int|
                    0 <= j < i ==> !name_matches(
                        lowercased(#[trigger] names@[j]@),
                        lowercased(wish),
                    ),
                None => forall|j: int|
                    0 <= j < names@.len() ==> !name_matches(
                        lowercased(#[trigger] names@[j]@),
                        lowercased(wish),
                    ),
            },
        },
{
    let wish: &str = match substring {
        Some(s) => trim(s),
        None => {
            return None;
        },
    };
    if wish.unicode_len() == 0 {
        return None;
    }
    let needle: String = to_lowercase(wish);
    let mut lower: Vec<String> = Vec::new();
    let mut i: usize = 0;
    while i < names.len()
        invariant
            i <= names@.len(),
            lower@.len() == i,
            forall|j: int| 0 <= j < i ==> (#[trigger] lower@[j])@ == lowercased(names@[j]@),
        decreases names@.len() - i,
    {
        lower.push(to_lowercase(names[i].as_str()));
        i += 1;
    }
    let r: Option<usize> = first_containing(&lower, needle.as_str());
    proof {
        assert forall|j: int| 0 <= j < names@.len() implies name_matches(
            (#[trigger] lower@[j])@,
            needle@,
        ) == name_matches(lowercased(names@[j]@), lowercased(wish@)) by {}
        assert forall|j: int|
            0 <= j < names@.len() && !name_matches(lower@[j]@, needle@) implies !name_matches(
            lowercased(#[trigger] names@[j]@),
            lowercased(wish@),
        ) by {}
    }
    r
}

/// Whether a device is wished for at all.
pub fn wishes_device(substring: Option<&str>) -> (r: bool)
    ensures
        r == (wish_of(
            match substring {
                Some(s) => Some(s@),
                None => None,
            },
        ) is Some),
{
    match substring {
        Some(s) => trim(s).unicode_len() > 0,
        None => false,
    }
}

/// Choose an output device from the names of all of them: the position of
/// the one asked for, or none for the host's default, and how the choice came
/// about.
pub fn select_device(names: &Vec<String>, substring: Option<&str>) -> (r: (
    Option<usize>,
    OutputDeviceSelection,
))
    ensures
        r.0 is Some <==> r.1 == OutputDeviceSelection::Matched,
        r.1 == OutputDeviceSelection::Default <==> wish_of(
            match substring {
                Some(s) => Some(s@),
                None => None,
            },
        ) is None,
        r.0 matches Some(i) ==> i < names@.len(),
        wish_of(
            match substring {
                Some(s) => Some(s@),
                None => None,
            },
        ) matches Some(wish) ==> match r.0 {
            Some(i) => name_matches(lowercased(names@[i as int]@), lowercased(wish)) && forall|
                j: int,
            |
                0 <= j < i ==> !name_matches(lowercased(#[trigger] names@[j]@), lowercased(wish)),
            None => forall|j: int|
                0 <= j < names@.len() ==> !name_matches(
                    lowercased(#[trigger] names@[j]@),
                    lowercased(wish),
                ),
        },
{
    if !wishes_device(substring) {
        return (None, OutputDeviceSelection::Default);
    }
    match match_device_by_substring(names, substring) {
        Some(i) => (Some(i), OutputDeviceSelection::Matched),
        None => (None, OutputDeviceSelection::Fallback),
    }
}

/// Frames in a callback's buffer of `samples` interleaved samples.
pub fn callback_frames(samples: usize, channels: usize) -> (r: usize)
    ensures
        r == (if channels == 0 {
            samples as int
        } else {
            samples as int / channels as int
        }),
{
    if channels == 0 {
        samples
    } else {
        samples / channels
    }
}

/// Frames to mix next when `written` of `total` frames are done; 0 at the
/// end.
pub fn mix_frames(total: usize, written: usize) -> (r: usize)
    requires
        written <= total,
    ensures
        r == (if total - written < MAX_MONO_FRAMES {
            total - written
        } else {
            MAX_MONO_FRAMES as int
        }),
{
    let left: usize = total - written;
    if left < MAX_MONO_FRAMES {
        left
    } else {
        MAX_MONO_FRAMES
    }
}

/// Where a buffer of `frames` frames that begins at frame `now` ends; frames
/// are not counted past the largest number.
pub fn buffer_end(now: u64, frames: usize) -> (r: u64)
    ensures
        r == (if now + frames > u64::MAX {
            u64::MAX as int
        } else {
            now + frames
        }),
{
    now.saturating_add(frames as u64)
}

/// Frame of the mono mix that feeds sample `i` of the output.
pub fn frame_of_sample(i: usize, channels: usize) -> (r: usize)
    requires
        channels > 0,
    ensures
        r == i as int / channels as int,
{
    i / channels
}

/// Every sample of an output buffer belongs to one of its frames, and every
/// channel of a frame to that frame.
pub proof fn frames_tile_the_buffer(samples: int, channels: int, frame: int, channel: int)
    requires
        samples >= 0,
        channels > 0,
        0 <= frame < samples / channels,
        0 <= channel < channels,
    ensures
        0 <= frame * channels + channel < samples,
        (frame * channels + channel) / channels == frame,
{
    vstd::arithmetic::div_mod::lemma_fundamental_div_mod(samples, channels);
    vstd::arithmetic::div_mod::lemma_fundamental_div_mod_converse(
        frame * channels + channel,
        channels,
        frame,
        channel,
    );
    let q = samples / channels;
    assert(frame * channels + channel < q * channels && q * channels <= samples && 0 <= frame
        * channels) by (nonlinear_arith)
        requires
            0 <= frame < q,
            0 <= channel < channels,
            samples == channels * q + samples % channels,
            samples % channels >= 0,
    ;
}

/// A wish is the text that was asked for, without the white space around it;
/// where nothing else was asked for there is none.
pub proof fn wishes_are_what_was_asked_for(
    before: Seq<char>,
    text: Seq<char>,
    behind: Seq<char>,
)
    requires
        forall|i: int| 0 <= i < before.len() ==> is_white(#[trigger] before[i]),
        forall|i: int| 0 <= i < behind.len() ==> is_white(#[trigger] behind[i]),
        text.len() > 0 ==> !is_white(text[0]) && !is_white(text.last()),
    ensures
        text.len() > 0 ==> wish_of(Some(before + text + behind)) == Some(text),
        text.len() == 0 ==> wish_of(Some(before + text + behind)) is None,
        wish_of(None) is None,
{
    trim_takes_away_the_ends(before, text, behind);
}

/// A name matches a wish that stands anywhere in it, and no other.
pub proof fn names_match_what_stands_in_them(
    before: Seq<char>,
    wish: Seq<char>,
    behind: Seq<char>,
    name: Seq<char>,
)
    ensures
        name_matches(before + wish + behind, wish),
        name_matches(name, wish) <==> occurs_in(wish, name),
{
    pieces_occur(before, wish, behind, name);
}

} // verus!
