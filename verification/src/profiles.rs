//! Device profiles: what format a target device requires.

use crate::error::BbtError;
use crate::graph::MediaType;
use crate::spec::TranscodeSpec;
use crate::text::{literal_texts, opt_text, same_text};
use vstd::prelude::*;
use vstd::string::*;

verus! {

/// A device profile. Absent values are taken from the source.
#[derive(Debug)]
pub struct DeviceProfile {
    pub id: String,
    pub name: String,
    pub vendor: Option<String>,
    pub description: String,
    pub container: String,
    pub codec: String,
    pub bitrate_kbps: Option<u32>,
    pub sample_rate_hz: Option<u32>,
    pub channels: Option<u8>,
    pub cbr: bool,
    pub extension: String,
    pub notes: Option<String>,
}

/// Where a profile is taken from.
#[derive(Debug, Clone, Copy, PartialEq, Eq, Structural)]
pub enum ProfileSource {
    /// The built-in profile of this index.
    Builtin(usize),
    /// The profile file in the directory of this index.
    Directory(usize),
}

/// The identifiers of the built-in profiles.
pub open spec fn builtin_ids() -> Seq<Seq<char>> {
    seq![
        "minidisc-sp"@,
        "minidisc-lp2"@,
        "minidisc-lp4"@,
        "himd-sp"@,
        "generic-mp3-128"@,
        "generic-mp3-192"@,
        "generic-mp3-320"@,
        "generic-aac-128"@,
        "generic-aac-256"@,
        "generic-flac"@,
        "generic-ogg-192"@,
    ]
}

/// The identifiers of the built-in profiles.
pub fn builtin_profile_ids() -> (r: Vec<&'static str>)
    ensures
        literal_texts(r@) == builtin_ids(),
{
    let v: Vec<&'static str> = vec![
        "minidisc-sp",
        "minidisc-lp2",
        "minidisc-lp4",
        "himd-sp",
        "generic-mp3-128",
        "generic-mp3-192",
        "generic-mp3-320",
        "generic-aac-128",
        "generic-aac-256",
        "generic-flac",
        "generic-ogg-192",
    ];
    assert(literal_texts(v@) =~= builtin_ids());
    v
}

/// The first index at which a list of flags is set.
pub open spec fn first_set(v: Seq<bool>) -> Option<int>
    decreases v.len(),
{
    if v.len() == 0 {
        None
    } else if first_set(v.drop_last()) is Some {
        first_set(v.drop_last())
    } else if v.last() {
        Some(v.len() - 1)
    } else {
        None
    }
}

impl DeviceProfile {
    /// Finds a profile: among the built-in ones first, then in the directories
    /// in their order. `has_file` says of each directory whether it holds a file
    /// of that profile.
    pub fn load_by_id(id: &str, has_file: &[bool]) -> (r: Result<ProfileSource, BbtError>)
        ensures
            match r {
                Ok(ProfileSource::Builtin(i)) => i < builtin_ids().len() && builtin_ids()[i as int]
                    == id@,
                Ok(ProfileSource::Directory(i)) => !builtin_ids().contains(id@) && first_set(
                    has_file@,
                ) == Some(i as int),
                Err(e) => {
                    &&& !builtin_ids().contains(id@)
                    &&& first_set(has_file@) is None
                    &&& e matches BbtError::ProfileNotFound(name)
                    &&& name@ == id@
                },
            },
    {
        let ids = builtin_profile_ids();
        let mut i: usize = 0;
        while i < ids.len()
            invariant
                i <= ids@.len(),
                literal_texts(ids@) == builtin_ids(),
                forall|j: int| 0 <= j < i ==> builtin_ids()[j] != id@,
            decreases ids@.len() - i,
        {
            assert(literal_texts(ids@)[i as int] == ids@[i as int]@);
            if same_text(ids[i], id) {
                return Ok(ProfileSource::Builtin(i));
            }
            i = i + 1;
        }
        assert(!builtin_ids().contains(id@));
        let mut k: usize = 0;
        while k < has_file.len()
            invariant
                k <= has_file@.len(),
                !builtin_ids().contains(id@),
                first_set(has_file@.take(k as int)) is None,
            decreases has_file@.len() - k,
        {
            assert(has_file@.take(k + 1).drop_last() =~= has_file@.take(k as int));
            assert(has_file@.take(k + 1).last() == has_file@[k as int]);
            if has_file[k] {
                proof {
                    lemma_first_set_stays(has_file@, k + 1);
                }
                return Ok(ProfileSource::Directory(k));
            }
            k = k + 1;
        }
        assert(has_file@.take(has_file@.len() as int) =~= has_file@);
        Err(BbtError::ProfileNotFound(id.to_owned()))
    }

    /// The request that a profile stands for.
    pub fn to_spec(&self) -> (r: TranscodeSpec)
        ensures
            r.media_type == MediaType::Audio,
            r.container@ == self.container@,
            r.extension@ == self.extension@,
            r.cbr == self.cbr,
            r.audio_codec@ == self.codec@,
            r.audio_bitrate_kbps == self.bitrate_kbps,
            r.sample_rate_hz == self.sample_rate_hz,
            r.channels == self.channels,
            r.preserve_artwork,
            opt_text(r.video_codec) is None,
            r.video_bitrate_kbps is None,
            r.width is None,
            r.height is None,
            opt_text(r.frame_rate) is None,
            opt_text(r.pixel_format) is None,
            opt_text(r.video_filter) is None,
            opt_text(r.video_profile) is None,
            opt_text(r.video_level) is None,
            opt_text(r.poster_artwork_path) is None,
            opt_text(r.hwaccel) is None,
            opt_text(r.movflags) is None,
            r.audio_block_size is None,
            r.aac_priming is None,
    {
        TranscodeSpec {
            media_type: MediaType::Audio,
            container: self.container.clone(),
            extension: self.extension.clone(),
            cbr: self.cbr,
            audio_codec: self.codec.clone(),
            audio_bitrate_kbps: self.bitrate_kbps,
            sample_rate_hz: self.sample_rate_hz,
            channels: self.channels,
            video_codec: None,
            video_bitrate_kbps: None,
            width: None,
            height: None,
            frame_rate: None,
            pixel_format: None,
            video_filter: None,
            video_profile: None,
            video_level: None,
            poster_artwork_path: None,
            hwaccel: None,
            movflags: None,
            audio_block_size: None,
            preserve_artwork: true,
            aac_priming: None,
        }
    }
}

proof fn lemma_first_set_stays(v: Seq<bool>, k: int)
    requires
        0 <= k <= v.len(),
        first_set(v.take(k)) is Some,
    ensures
        first_set(v) == first_set(v.take(k)),
    decreases v.len() - k,
{
    if k < v.len() {
        assert(v.take(k + 1).drop_last() =~= v.take(k));
        lemma_first_set_stays(v, k + 1);
    } else {
        assert(v.take(k) =~= v);
    }
}

/// The directory that a profile is found in is the first that has it.
pub proof fn law_first_directory_wins(has_file: Seq<bool>)
    ensures
        match first_set(has_file) {
            Some(i) => 0 <= i < has_file.len() && has_file[i] && forall|j: int|
                0 <= j < i ==> !(#[trigger] has_file[j]),
            None => forall|j: int| 0 <= j < has_file.len() ==> !(#[trigger] has_file[j]),
        },
    decreases has_file.len(),
{
    if has_file.len() > 0 {
        law_first_directory_wins(has_file.drop_last());
        let front = has_file.drop_last();
        assert forall|j: int| 0 <= j < front.len() implies front[j] == #[trigger] has_file[j] by {}
    }
}

/// A profile asks for what the device requires and for sound alone: whatever it
/// leaves open is taken from the source.
pub proof fn law_profiles_ask_for_what_the_device_needs(p: DeviceProfile, r: TranscodeSpec)
    requires
        call_ensures(DeviceProfile::to_spec, (&p,), r),
    ensures
        r.media_type == MediaType::Audio,
        r.container@ == p.container@,
        r.extension@ == p.extension@,
        r.audio_codec@ == p.codec@,
        r.audio_bitrate_kbps == p.bitrate_kbps,
        r.sample_rate_hz == p.sample_rate_hz,
        r.channels == p.channels,
        r.cbr == p.cbr,
        r.preserve_artwork,
        r.aac_priming is None && r.audio_block_size is None && r.movflags is None,
        r.video_codec is None && r.video_bitrate_kbps is None && r.video_filter is None,
        r.width is None && r.height is None && r.frame_rate is None && r.pixel_format is None,
        r.video_profile is None && r.video_level is None && r.poster_artwork_path is None,
        r.hwaccel is None,
{
}

/// A built-in profile is found whatever the directories hold; another one in the
/// first directory that holds it, and nowhere else.
pub proof fn law_builtin_profiles_come_first(
    id: &str,
    has_file: &[bool],
    r: Result<ProfileSource, BbtError>,
    ids: Vec<&'static str>,
    k: int,
)
    requires
        call_ensures(DeviceProfile::load_by_id, (id, has_file), r),
        call_ensures(builtin_profile_ids, (), ids),
    ensures
        0 <= k < ids@.len() && ids@[k]@ == id@ ==> (r matches Ok(ProfileSource::Builtin(i)) && i
            < ids@.len() && ids@[i as int]@ == id@),
        (forall|j: int| 0 <= j < ids@.len() ==> (#[trigger] ids@[j])@ != id@) ==> match r {
            Ok(ProfileSource::Builtin(_)) => false,
            Ok(ProfileSource::Directory(i)) => {
                &&& i < has_file@.len()
                &&& has_file@[i as int]
                &&& forall|j: int| 0 <= j < i ==> !(#[trigger] has_file@[j])
            },
            Err(e) => {
                &&& forall|j: int| 0 <= j < has_file@.len() ==> !(#[trigger] has_file@[j])
                &&& e matches BbtError::ProfileNotFound(name) && name@ == id@
            },
        },
        ids@.len() == 11,
{
    law_first_directory_wins(has_file@);
    let l = builtin_ids();
    assert(forall|j: int| 0 <= j < ids@.len() ==> literal_texts(ids@)[j] == (#[trigger] ids@[j])@);
    assert(l.len() == literal_texts(ids@).len());
    if 0 <= k < ids@.len() && ids@[k]@ == id@ {
        assert(l[k] == id@);
        assert(l.contains(id@));
        if let Ok(ProfileSource::Builtin(i)) = r {
            assert(literal_texts(ids@)[i as int] == ids@[i as int]@);
        }
    }
    if forall|j: int| 0 <= j < ids@.len() ==> (#[trigger] ids@[j])@ != id@ {
        if let Ok(ProfileSource::Builtin(i)) = r {
            assert(literal_texts(ids@)[i as int] == ids@[i as int]@);
        }
    }
}

/// The built-in profiles are those of the MiniDisc family and the common ones.
pub proof fn law_builtin_profiles_are_known_by_name(
    id: &str,
    has_file: &[bool],
    r: Result<ProfileSource, BbtError>,
)
    requires
        call_ensures(DeviceProfile::load_by_id, (id, has_file), r),
    ensures
        (r matches Ok(ProfileSource::Builtin(_))) <==> id@ == "minidisc-sp"@
            || id@ == "minidisc-lp2"@
            || id@ == "minidisc-lp4"@
            || id@ == "himd-sp"@
            || id@ == "generic-mp3-128"@
            || id@ == "generic-mp3-192"@
            || id@ == "generic-mp3-320"@
            || id@ == "generic-aac-128"@
            || id@ == "generic-aac-256"@
            || id@ == "generic-flac"@
            || id@ == "generic-ogg-192"@,
{
    let l = builtin_ids();
    assert(l[0] == "minidisc-sp"@
        && l[1] == "minidisc-lp2"@
        && l[2] == "minidisc-lp4"@
        && l[3] == "himd-sp"@
        && l[4] == "generic-mp3-128"@
        && l[5] == "generic-mp3-192"@
        && l[6] == "generic-mp3-320"@
        && l[7] == "generic-aac-128"@
        && l[8] == "generic-aac-256"@
        && l[9] == "generic-flac"@
        && l[10] == "generic-ogg-192"@);
    if let Ok(ProfileSource::Builtin(i)) = r {
        assert(l[i as int] == id@);
    }
}

} // verus!
