//! The settings of a stream that a person can step through.
use vstd::prelude::*;

use crate::domain::{CodecPreference, StreamProfile};

verus! {

#[derive(Clone, Copy, Debug, PartialEq, Eq, Structural)]
pub enum StreamSetting {
    Resolution,
    Fps,
    Bitrate,
    Codec,
    Audio,
}

impl StreamSetting {
    pub const ALL: [StreamSetting; 5] = [
        StreamSetting::Resolution,
        StreamSetting::Fps,
        StreamSetting::Bitrate,
        StreamSetting::Codec,
        StreamSetting::Audio,
    ];

    /// The settings in the order in which they are listed.
    pub open spec fn listed() -> Seq<StreamSetting> {
        seq![
            StreamSetting::Resolution,
            StreamSetting::Fps,
            StreamSetting::Bitrate,
            StreamSetting::Codec,
            StreamSetting::Audio,
        ]
    }

    pub open spec fn spec_next(self) -> StreamSetting {
        Self::listed()[(place_or(Self::listed(), self, 0) + 1) % 5]
    }

    pub open spec fn spec_previous(self) -> StreamSetting {
        Self::listed()[(place_or(Self::listed(), self, 0) + 4) % 5]
    }

    proof fn lemma_places()
        ensures
            forall|s: StreamSetting|
                #![trigger place_or(Self::listed(), s, 0)]
                place_or(Self::listed(), s, 0) == (match s {
                    StreamSetting::Resolution => 0int,
                    StreamSetting::Fps => 1,
                    StreamSetting::Bitrate => 2,
                    StreamSetting::Codec => 3,
                    StreamSetting::Audio => 4,
                }),
    {
        let all = Self::listed();
        lemma_place(all, StreamSetting::Resolution, 0, 0);
        lemma_place(all, StreamSetting::Fps, 0, 1);
        lemma_place(all, StreamSetting::Bitrate, 0, 2);
        lemma_place(all, StreamSetting::Codec, 0, 3);
        lemma_place(all, StreamSetting::Audio, 0, 4);
    }

    /// The place of the setting in the list.
    pub fn index(self) -> (r: usize)
        ensures
            r == place_or(Self::listed(), self, 0),
            r < 5,
    {
        proof {
            Self::lemma_places();
        }
        match self {
            StreamSetting::Resolution => 0,
            StreamSetting::Fps => 1,
            StreamSetting::Bitrate => 2,
            StreamSetting::Codec => 3,
            StreamSetting::Audio => 4,
        }
    }

    fn listed_at(index: usize) -> (r: StreamSetting)
        requires
            index < 5,
        ensures
            r == Self::listed()[index as int],
    {
        if index == 0 {
            StreamSetting::Resolution
        } else if index == 1 {
            StreamSetting::Fps
        } else if index == 2 {
            StreamSetting::Bitrate
        } else if index == 3 {
            StreamSetting::Codec
        } else {
            StreamSetting::Audio
        }
    }

    /// The setting below, or the first after the last.
    pub fn next(self) -> (r: StreamSetting)
        ensures
            r == self.spec_next(),
    {
        Self::listed_at((self.index() + 1) % 5)
    }

    /// The setting above, or the last before the first.
    pub fn previous(self) -> (r: StreamSetting)
        ensures
            r == self.spec_previous(),
    {
        Self::listed_at((self.index() + 4) % 5)
    }
}

/// One step down and one step up lead back.
pub proof fn law_settings_step_both_ways(s: StreamSetting)
    ensures
        s.spec_next().spec_previous() == s,
        s.spec_previous().spec_next() == s,
{
    StreamSetting::lemma_places();
}

/// The first place where a value stands, or another place where it stands nowhere.
pub open spec fn place_or<T>(values: Seq<T>, value: T, otherwise: int) -> int {
    if values.contains(value) {
        choose|i: int|
            0 <= i < values.len() && #[trigger] values[i] == value && forall|k: int|
                0 <= k < i ==> values[k] != value
    } else {
        otherwise
    }
}

proof fn lemma_place<T>(values: Seq<T>, value: T, otherwise: int, i: int)
    requires
        0 <= i < values.len(),
        values[i] == value,
        forall|k: int| 0 <= k < i ==> values[k] != value,
    ensures
        place_or(values, value, otherwise) == i,
{
    assert(values.contains(value));
    let p = place_or(values, value, otherwise);
    assert(0 <= p < values.len() && values[p] == value && forall|k: int| 0 <= k < p ==> values[k] != value);
    if p < i {
        assert(values[p] != value);
    }
    if i < p {
        assert(values[i] != value);
    }
}

/// The next place of a list of that length: back where the direction is negative, else on.
pub open spec fn cycled(current: int, len: int, direction: int) -> int {
    if direction < 0 {
        (current + len - 1) % len
    } else {
        (current + 1) % len
    }
}

pub fn cycle_index(current: usize, len: usize, direction: i8) -> (r: usize)
    requires
        len > 0,
        direction < 0 ==> current + len <= usize::MAX,
        direction >= 0 ==> current < usize::MAX,
    ensures
        r == cycled(current as int, len as int, direction as int),
        r < len,
{
    if direction < 0 {
        (current + len - 1) % len
    } else {
        (current + 1) % len
    }
}

pub open spec fn resolutions() -> Seq<(u32, u32)> {
    seq![(1280u32, 720u32), (1920, 1080), (2560, 1440), (3840, 2160)]
}

pub open spec fn frame_rates() -> Seq<u16> {
    seq![30u16, 60, 90, 120]
}

pub open spec fn bitrates() -> Seq<Option<u32>> {
    seq![None, Some(10_000u32), Some(20_000), Some(40_000), Some(80_000), Some(120_000)]
}

pub open spec fn codecs() -> Seq<CodecPreference> {
    seq![CodecPreference::Auto, CodecPreference::H264, CodecPreference::Hevc, CodecPreference::Av1]
}

/// The value one step on from another, or back, in the circle of the offered values.
#[verifier::opaque]
pub open spec fn stepped<T>(values: Seq<T>, value: T, otherwise: int, direction: int) -> T {
    values[cycled(place_or(values, value, otherwise), values.len() as int, direction)]
}

/// The profile after one step of a setting. A value that is not offered steps as the second
/// resolution or frame rate, or the first bitrate, would.
#[verifier::opaque]
pub open spec fn changed(profile: StreamProfile, setting: StreamSetting, direction: int) -> StreamProfile {
    match setting {
        StreamSetting::Resolution => {
            let size = stepped(resolutions(), (profile.width, profile.height), 1, direction);
            StreamProfile { width: size.0, height: size.1, ..profile }
        },
        StreamSetting::Fps => StreamProfile {
            fps: stepped(frame_rates(), profile.fps, 1, direction),
            ..profile
        },
        StreamSetting::Bitrate => StreamProfile {
            bitrate_kbps: stepped(bitrates(), profile.bitrate_kbps, 0, direction),
            ..profile
        },
        StreamSetting::Codec => StreamProfile {
            codec_preference: stepped(codecs(), profile.codec_preference, 0, direction),
            ..profile
        },
        StreamSetting::Audio => StreamProfile { audio: !profile.audio, ..profile },
    }
}

/// The place of a pair in a list of pairs.
fn resolution_place(values: &Vec<(u32, u32)>, width: u32, height: u32, otherwise: usize) -> (r: usize)
    requires
        otherwise < values@.len(),
    ensures
        r == place_or(values@, (width, height), otherwise as int),
        r < values@.len(),
{
    let mut i: usize = 0;
    while i < values.len()
        invariant
            i <= values@.len(),
            forall|k: int| 0 <= k < i ==> values@[k] != (width, height),
        decreases values@.len() - i,
    {
        if values[i].0 == width && values[i].1 == height {
            proof {
                lemma_place(values@, (width, height), otherwise as int, i as int);
            }
            return i;
        }
        i += 1;
    }
    otherwise
}

fn rate_place(values: &Vec<u16>, value: u16, otherwise: usize) -> (r: usize)
    requires
        otherwise < values@.len(),
    ensures
        r == place_or(values@, value, otherwise as int),
        r < values@.len(),
{
    let mut i: usize = 0;
    while i < values.len()
        invariant
            i <= values@.len(),
            forall|k: int| 0 <= k < i ==> values@[k] != value,
        decreases values@.len() - i,
    {
        if values[i] == value {
            proof {
                lemma_place(values@, value, otherwise as int, i as int);
            }
            return i;
        }
        i += 1;
    }
    otherwise
}

fn bitrate_place(values: &Vec<Option<u32>>, value: Option<u32>, otherwise: usize) -> (r: usize)
    requires
        otherwise < values@.len(),
    ensures
        r == place_or(values@, value, otherwise as int),
        r < values@.len(),
{
    let mut i: usize = 0;
    while i < values.len()
        invariant
            i <= values@.len(),
            forall|k: int| 0 <= k < i ==> values@[k] != value,
        decreases values@.len() - i,
    {
        let same = match (values[i], value) {
            (Some(a), Some(b)) => a == b,
            (None, None) => true,
            _ => false,
        };
        if same {
            proof {
                lemma_place(values@, value, otherwise as int, i as int);
            }
            return i;
        }
        i += 1;
    }
    otherwise
}

fn codec_place(values: &Vec<CodecPreference>, value: CodecPreference, otherwise: usize) -> (r: usize)
    requires
        otherwise < values@.len(),
    ensures
        r == place_or(values@, value, otherwise as int),
        r < values@.len(),
{
    let mut i: usize = 0;
    while i < values.len()
        invariant
            i <= values@.len(),
            forall|k: int| 0 <= k < i ==> values@[k] != value,
        decreases values@.len() - i,
    {
        if values[i] == value {
            proof {
                lemma_place(values@, value, otherwise as int, i as int);
            }
            return i;
        }
        i += 1;
    }
    otherwise
}

pub fn change_stream_setting(profile: &mut StreamProfile, setting: StreamSetting, direction: i8)
    ensures
        *final(profile) == changed(*old(profile), setting, direction as int),
{
    reveal(changed);
    reveal(stepped);
    match setting {
        StreamSetting::Resolution => {
            let values: Vec<(u32, u32)> = vec![(1280, 720), (1920, 1080), (2560, 1440), (3840, 2160)];
            assert(values@ =~= resolutions());
            let current: usize = resolution_place(&values, profile.width, profile.height, 1);
            let selected: usize = cycle_index(current, 4, direction);
            profile.width = values[selected].0;
            profile.height = values[selected].1;
        },
        StreamSetting::Fps => {
            let values: Vec<u16> = vec![30, 60, 90, 120];
            assert(values@ =~= frame_rates());
            let current: usize = rate_place(&values, profile.fps, 1);
            let selected: usize = cycle_index(current, 4, direction);
            profile.fps = values[selected];
        },
        StreamSetting::Bitrate => {
            let values: Vec<Option<u32>> = vec![
                None,
                Some(10_000),
                Some(20_000),
                Some(40_000),
                Some(80_000),
                Some(120_000),
            ];
            assert(values@ =~= bitrates());
            let current: usize = bitrate_place(&values, profile.bitrate_kbps, 0);
            let selected: usize = cycle_index(current, 6, direction);
            profile.bitrate_kbps = values[selected];
        },
        StreamSetting::Codec => {
            let values: Vec<CodecPreference> = vec![
                CodecPreference::Auto,
                CodecPreference::H264,
                CodecPreference::Hevc,
                CodecPreference::Av1,
            ];
            assert(values@ =~= codecs());
            let current: usize = codec_place(&values, profile.codec_preference, 0);
            let selected: usize = cycle_index(current, 4, direction);
            profile.codec_preference = values[selected];
        },
        StreamSetting::Audio => {
            profile.audio = !profile.audio;
        },
    }
}

/// Whether every value of the profile is one that is offered.
pub open spec fn offered(profile: StreamProfile) -> bool {
    &&& resolutions().contains((profile.width, profile.height))
    &&& frame_rates().contains(profile.fps)
    &&& bitrates().contains(profile.bitrate_kbps)
    &&& codecs().contains(profile.codec_preference)
}

/// A step on and a step back restore a profile of offered values.
pub proof fn law_a_step_back_undoes_a_step(profile: StreamProfile, setting: StreamSetting)
    requires
        offered(profile),
    ensures
        changed(changed(profile, setting, 1), setting, -1) == profile,
        changed(changed(profile, setting, -1), setting, 1) == profile,
{
    match setting {
        StreamSetting::Resolution => lemma_resolution_steps(profile),
        StreamSetting::Fps => lemma_rate_steps(profile),
        StreamSetting::Bitrate => lemma_bitrate_steps(profile),
        StreamSetting::Codec => lemma_codec_steps(profile),
        StreamSetting::Audio => {
            reveal(changed);
        },
    }
}

proof fn lemma_resolution_steps(profile: StreamProfile)
    requires
        resolutions().contains((profile.width, profile.height)),
    ensures
        changed(changed(profile, StreamSetting::Resolution, 1), StreamSetting::Resolution, -1) == profile,
        changed(changed(profile, StreamSetting::Resolution, -1), StreamSetting::Resolution, 1) == profile,
{
    reveal(changed);
    let values = resolutions();
    assert(forall|i: int, j: int| 0 <= i < j < values.len() ==> values[i] != values[j]);
    lemma_steps(values, (profile.width, profile.height), 1);
}

proof fn lemma_rate_steps(profile: StreamProfile)
    requires
        frame_rates().contains(profile.fps),
    ensures
        changed(changed(profile, StreamSetting::Fps, 1), StreamSetting::Fps, -1) == profile,
        changed(changed(profile, StreamSetting::Fps, -1), StreamSetting::Fps, 1) == profile,
{
    reveal(changed);
    let values = frame_rates();
    assert(forall|i: int, j: int| 0 <= i < j < values.len() ==> values[i] != values[j]);
    lemma_steps(values, profile.fps, 1);
}

proof fn lemma_bitrate_steps(profile: StreamProfile)
    requires
        bitrates().contains(profile.bitrate_kbps),
    ensures
        changed(changed(profile, StreamSetting::Bitrate, 1), StreamSetting::Bitrate, -1) == profile,
        changed(changed(profile, StreamSetting::Bitrate, -1), StreamSetting::Bitrate, 1) == profile,
{
    reveal(changed);
    let values = bitrates();
    assert(forall|i: int, j: int| 0 <= i < j < values.len() ==> values[i] != values[j]);
    lemma_steps(values, profile.bitrate_kbps, 0);
}

proof fn lemma_codec_steps(profile: StreamProfile)
    requires
        codecs().contains(profile.codec_preference),
    ensures
        changed(changed(profile, StreamSetting::Codec, 1), StreamSetting::Codec, -1) == profile,
        changed(changed(profile, StreamSetting::Codec, -1), StreamSetting::Codec, 1) == profile,
{
    reveal(changed);
    let values = codecs();
    assert(forall|i: int, j: int| 0 <= i < j < values.len() ==> values[i] != values[j]);
    lemma_steps(values, profile.codec_preference, 0);
}

/// A step leads to a profile that can be streamed, from one that can.
pub proof fn law_steps_keep_the_profile_valid(profile: StreamProfile, setting: StreamSetting, direction: int)
    requires
        profile.valid(),
    ensures
        changed(profile, setting, direction).valid(),
{
    reveal(changed);
    reveal(stepped);
    lemma_place_in(resolutions(), (profile.width, profile.height), 1);
    lemma_place_in(frame_rates(), profile.fps, 1);
    lemma_place_in(bitrates(), profile.bitrate_kbps, 0);
}

proof fn lemma_place_in<T>(values: Seq<T>, value: T, otherwise: int)
    requires
        0 <= otherwise < values.len(),
    ensures
        0 <= place_or(values, value, otherwise) < values.len(),
{
    if values.contains(value) {
        lemma_has_first(values, value, 0);
    }
}

/// Where a value stands somewhere from `i` on, and not before, it has a first place.
proof fn lemma_has_first<T>(values: Seq<T>, value: T, i: int)
    requires
        values.contains(value),
        0 <= i <= values.len(),
        forall|k: int| 0 <= k < i ==> values[k] != value,
    ensures
        exists|j: int|
            0 <= j < values.len() && #[trigger] values[j] == value && forall|k: int|
                0 <= k < j ==> values[k] != value,
    decreases values.len() - i,
{
    if i < values.len() && values[i] != value {
        lemma_has_first(values, value, i + 1);
    }
}

proof fn lemma_steps<T>(values: Seq<T>, value: T, otherwise: int)
    requires
        values.contains(value),
        2 <= values.len() <= 6,
        forall|i: int, j: int| 0 <= i < j < values.len() ==> values[i] != values[j],
    ensures
        stepped(values, stepped(values, value, otherwise, 1), otherwise, -1) == value,
        stepped(values, stepped(values, value, otherwise, -1), otherwise, 1) == value,
{
    reveal(stepped);
    let n = values.len() as int;
    lemma_has_first(values, value, 0);
    let at = place_or(values, value, otherwise);
    let on = cycled(at, n, 1);
    let back = cycled(at, n, -1);
    assert(values[at] == value);
    if at + 1 < n {
        vstd::arithmetic::div_mod::lemma_small_mod((at + 1) as nat, n as nat);
        vstd::arithmetic::div_mod::lemma_small_mod(at as nat, n as nat);
        vstd::arithmetic::div_mod::lemma_mod_add_multiples_vanish(at, n);
    } else {
        vstd::arithmetic::div_mod::lemma_mod_self_0(n);
        vstd::arithmetic::div_mod::lemma_small_mod((n - 1) as nat, n as nat);
    }
    if at > 0 {
        vstd::arithmetic::div_mod::lemma_small_mod((at - 1) as nat, n as nat);
        vstd::arithmetic::div_mod::lemma_mod_add_multiples_vanish(at - 1, n);
        vstd::arithmetic::div_mod::lemma_small_mod(at as nat, n as nat);
    } else {
        vstd::arithmetic::div_mod::lemma_small_mod((n - 1) as nat, n as nat);
        vstd::arithmetic::div_mod::lemma_mod_self_0(n);
    }
    lemma_place(values, values[on], otherwise, on);
    lemma_place(values, values[back], otherwise, back);
}

pub open spec fn spec_codec_label(codec: CodecPreference) -> Seq<char> {
    match codec {
        CodecPreference::Auto => "Auto"@,
        CodecPreference::H264 => "H.264"@,
        CodecPreference::Hevc => "HEVC"@,
        CodecPreference::Av1 => "AV1"@,
    }
}

pub fn codec_label(codec: CodecPreference) -> (r: &'static str)
    ensures
        r@ == spec_codec_label(codec),
{
    match codec {
        CodecPreference::Auto => "Auto",
        CodecPreference::H264 => "H.264",
        CodecPreference::Hevc => "HEVC",
        CodecPreference::Av1 => "AV1",
    }
}

/// The settings are listed as resolution, frame rate, bitrate, codec and audio, and a step goes
/// through them in that order and round.
pub proof fn law_settings_are_listed_in_order(
    s: StreamSetting,
    index: usize,
    below: StreamSetting,
    above: StreamSetting,
)
    requires
        call_ensures(StreamSetting::index, (s,), index),
        call_ensures(StreamSetting::next, (s,), below),
        call_ensures(StreamSetting::previous, (s,), above),
    ensures
        match s {
            StreamSetting::Resolution => index == 0 && below == StreamSetting::Fps && above
                == StreamSetting::Audio,
            StreamSetting::Fps => index == 1 && below == StreamSetting::Bitrate && above
                == StreamSetting::Resolution,
            StreamSetting::Bitrate => index == 2 && below == StreamSetting::Codec && above
                == StreamSetting::Fps,
            StreamSetting::Codec => index == 3 && below == StreamSetting::Audio && above
                == StreamSetting::Bitrate,
            StreamSetting::Audio => index == 4 && below == StreamSetting::Resolution && above
                == StreamSetting::Codec,
        },
{
    StreamSetting::lemma_places();
}

/// A place in a list moves by one, and past an end it comes in at the other.
pub proof fn law_a_place_moves_by_one(current: usize, len: usize, direction: i8, r: usize)
    requires
        current < len,
        call_ensures(cycle_index, (current, len, direction), r),
    ensures
        direction < 0 && current > 0 ==> r == current - 1,
        direction < 0 && current == 0 ==> r == len - 1,
        direction >= 0 && current + 1 < len ==> r == current + 1,
        direction >= 0 && current + 1 == len ==> r == 0,
{
    let n = len as int;
    let at = current as int;
    if at + 1 < n {
        vstd::arithmetic::div_mod::lemma_small_mod((at + 1) as nat, n as nat);
    } else {
        vstd::arithmetic::div_mod::lemma_mod_self_0(n);
    }
    if at > 0 {
        vstd::arithmetic::div_mod::lemma_small_mod((at - 1) as nat, n as nat);
        vstd::arithmetic::div_mod::lemma_mod_add_multiples_vanish(at - 1, n);
    } else {
        vstd::arithmetic::div_mod::lemma_small_mod((n - 1) as nat, n as nat);
    }
}

/// A step of one setting leaves the others as they are.
pub proof fn law_a_step_changes_one_setting(
    profile: &mut StreamProfile,
    setting: StreamSetting,
    direction: i8,
)
    requires
        call_ensures(change_stream_setting, (profile, setting, direction), ()),
    ensures
        setting != StreamSetting::Resolution ==> final(profile).width == old(profile).width
            && final(profile).height == old(profile).height,
        setting != StreamSetting::Fps ==> final(profile).fps == old(profile).fps,
        setting != StreamSetting::Bitrate ==> final(profile).bitrate_kbps == old(profile).bitrate_kbps,
        setting != StreamSetting::Codec ==> final(profile).codec_preference
            == old(profile).codec_preference,
        setting != StreamSetting::Audio ==> final(profile).audio == old(profile).audio,
        setting == StreamSetting::Audio ==> final(profile).audio != old(profile).audio,
{
    reveal(changed);
}

/// Resolutions go from 720 lines over 1080 and 1440 to 2160 and round; one that is none of these
/// steps as 1080 lines would.
pub proof fn law_resolutions_step_by_size(profile: &mut StreamProfile, direction: i8)
    requires
        call_ensures(change_stream_setting, (profile, StreamSetting::Resolution, direction), ()),
    ensures
        ({
            let before = (old(profile).width, old(profile).height);
            let after = (final(profile).width, final(profile).height);
            let on = direction >= 0;
            if before == (1280u32, 720u32) {
                after == (if on {
                    (1920u32, 1080u32)
                } else {
                    (3840u32, 2160u32)
                })
            } else if before == (2560u32, 1440u32) {
                after == (if on {
                    (3840u32, 2160u32)
                } else {
                    (1920u32, 1080u32)
                })
            } else if before == (3840u32, 2160u32) {
                after == (if on {
                    (1280u32, 720u32)
                } else {
                    (2560u32, 1440u32)
                })
            } else {
                after == (if on {
                    (2560u32, 1440u32)
                } else {
                    (1280u32, 720u32)
                })
            }
        }),
{
    reveal(changed);
    reveal(stepped);
    let values = resolutions();
    let before = (old(profile).width, old(profile).height);
    lemma_distinct_places(values, before, 1);
    lemma_place_in(values, before, 1);
}

/// Where a value stands once in a list, that is its place; where it does not, the other is.
proof fn lemma_distinct_places<T>(values: Seq<T>, value: T, otherwise: int)
    requires
        forall|i: int, j: int| 0 <= i < j < values.len() ==> values[i] != values[j],
    ensures
        forall|i: int| 0 <= i < values.len() && #[trigger] values[i] == value ==> place_or(
            values,
            value,
            otherwise,
        ) == i,
        (forall|i: int| 0 <= i < values.len() ==> #[trigger] values[i] != value) ==> place_or(
            values,
            value,
            otherwise,
        ) == otherwise,
{
    assert forall|i: int| 0 <= i < values.len() && #[trigger] values[i] == value implies place_or(
        values,
        value,
        otherwise,
    ) == i by {
        lemma_place(values, value, otherwise, i);
    }
}

/// Frame rates go from 30 over 60 and 90 to 120 and round; another steps as 60 would.
pub proof fn law_frame_rates_step_by_thirty(profile: &mut StreamProfile, direction: i8)
    requires
        call_ensures(change_stream_setting, (profile, StreamSetting::Fps, direction), ()),
    ensures
        ({
            let before = old(profile).fps;
            let after = final(profile).fps;
            let from = if before == 30 || before == 90 || before == 120 {
                before as int
            } else {
                60
            };
            if direction >= 0 {
                after == (if from == 120 {
                    30
                } else {
                    from + 30
                })
            } else {
                after == (if from == 30 {
                    120
                } else {
                    from - 30
                })
            }
        }),
{
    reveal(changed);
    reveal(stepped);
    lemma_distinct_places(frame_rates(), old(profile).fps, 1);
    lemma_place_in(frame_rates(), old(profile).fps, 1);
}

/// Bitrates go from none over 10, 20, 40 and 80 to 120 megabits and round; another steps as none
/// would.
pub proof fn law_bitrates_step_upwards(profile: &mut StreamProfile, direction: i8)
    requires
        call_ensures(change_stream_setting, (profile, StreamSetting::Bitrate, direction), ()),
    ensures
        ({
            let before = old(profile).bitrate_kbps;
            let after = final(profile).bitrate_kbps;
            let on = direction >= 0;
            if before == Some(10_000u32) {
                after == (if on {
                    Some(20_000u32)
                } else {
                    None
                })
            } else if before == Some(20_000u32) {
                after == (if on {
                    Some(40_000u32)
                } else {
                    Some(10_000u32)
                })
            } else if before == Some(40_000u32) {
                after == (if on {
                    Some(80_000u32)
                } else {
                    Some(20_000u32)
                })
            } else if before == Some(80_000u32) {
                after == (if on {
                    Some(120_000u32)
                } else {
                    Some(40_000u32)
                })
            } else if before == Some(120_000u32) {
                after == (if on {
                    None
                } else {
                    Some(80_000u32)
                })
            } else {
                after == (if on {
                    Some(10_000u32)
                } else {
                    Some(120_000u32)
                })
            }
        }),
{
    reveal(changed);
    reveal(stepped);
    lemma_distinct_places(bitrates(), old(profile).bitrate_kbps, 0);
    lemma_place_in(bitrates(), old(profile).bitrate_kbps, 0);
}

/// Codecs go from the automatic choice over H.264 and HEVC to AV1 and round.
pub proof fn law_codecs_step_by_age(profile: &mut StreamProfile, direction: i8)
    requires
        call_ensures(change_stream_setting, (profile, StreamSetting::Codec, direction), ()),
    ensures
        final(profile).codec_preference == (match (old(profile).codec_preference, direction >= 0) {
            (CodecPreference::Auto, true) => CodecPreference::H264,
            (CodecPreference::H264, true) => CodecPreference::Hevc,
            (CodecPreference::Hevc, true) => CodecPreference::Av1,
            (CodecPreference::Av1, true) => CodecPreference::Auto,
            (CodecPreference::Auto, false) => CodecPreference::Av1,
            (CodecPreference::H264, false) => CodecPreference::Auto,
            (CodecPreference::Hevc, false) => CodecPreference::H264,
            (CodecPreference::Av1, false) => CodecPreference::Hevc,
        }),
{
    reveal(changed);
    reveal(stepped);
    lemma_distinct_places(codecs(), old(profile).codec_preference, 0);
    lemma_place_in(codecs(), old(profile).codec_preference, 0);
}

/// Each codec is shown under its own name.
pub proof fn law_codecs_are_shown_by_name(codec: CodecPreference, r: &'static str)
    requires
        call_ensures(codec_label, (codec,), r),
    ensures
        codec == CodecPreference::Auto ==> r@ == "Auto"@,
        codec == CodecPreference::H264 ==> r@ == "H.264"@,
        codec == CodecPreference::Hevc ==> r@ == "HEVC"@,
        codec == CodecPreference::Av1 ==> r@ == "AV1"@,
{
}

} // verus!
