//! Rendition profiles: the named output configurations of the bitrate ladder.

use crate::text::str_eq;
use vstd::prelude::*;

verus! {

/// One output quality tier.
#[derive(Debug, Clone, PartialEq, Eq)]
pub struct Profile {
    /// Name of the rendition: its directory below the output root and its
    /// identifier in the master playlist.
    pub level_name: String,
    /// Target video bitrate, in the encoder's notation.
    pub bitrate_video: String,
    /// Target audio bitrate, in the encoder's notation.
    pub bitrate_audio: String,
    /// Bandwidth that the master playlist advertises, in bits per second.
    pub bandwidth: u64,
    /// Width of the resolution that the master playlist advertises.
    pub width: u32,
    /// Height of the resolution that the master playlist advertises.
    pub height: u32,
}

/// What a profile says, as plain values.
pub struct ProfileView {
    pub level_name: Seq<char>,
    pub bitrate_video: Seq<char>,
    pub bitrate_audio: Seq<char>,
    pub bandwidth: nat,
    pub width: nat,
    pub height: nat,
}

impl View for Profile {
    type V = ProfileView;

    open spec fn view(&self) -> ProfileView {
        ProfileView {
            level_name: self.level_name@,
            bitrate_video: self.bitrate_video@,
            bitrate_audio: self.bitrate_audio@,
            bandwidth: self.bandwidth as nat,
            width: self.width as nat,
            height: self.height as nat,
        }
    }
}

/// The views of a list of profiles, in the same order.
pub open spec fn profile_views(profiles: Seq<Profile>) -> Seq<ProfileView> {
    profiles.map_values(|p: Profile| p@)
}

/// Why a list of profiles is no profile set.
#[derive(Debug, Clone, Copy, PartialEq, Eq, Structural)]
pub enum ProfileError {
    /// The list is empty.
    Empty,
    /// Two profiles have one name.
    DuplicateName,
}

/// No two profiles of the list have the same name.
pub open spec fn names_distinct(profiles: Seq<ProfileView>) -> bool {
    forall|i: int, j: int|
        0 <= i < j < profiles.len() ==> (#[trigger] profiles[i]).level_name != (
        #[trigger] profiles[j]).level_name
}

/// A profile set: at least one profile, each under a name of its own.
pub open spec fn valid_profiles(profiles: Seq<ProfileView>) -> bool {
    profiles.len() > 0 && names_distinct(profiles)
}

/// Checks that a list of profiles is a profile set.
pub fn check_profiles(profiles: &Vec<Profile>) -> (result: Result<(), ProfileError>)
    ensures
        result is Ok <==> valid_profiles(profile_views(profiles@)),
        result == Err::<(), ProfileError>(ProfileError::Empty) <==> profiles@.len() == 0,
{
    let ghost views = profile_views(profiles@);
    if profiles.len() == 0 {
        return Err(ProfileError::Empty);
    }
    let mut j: usize = 1;
    while j < profiles.len()
        invariant
            1 <= j <= profiles.len(),
            views == profile_views(profiles@),
            names_distinct(views.take(j as int)),
        decreases profiles.len() - j,
    {
        let mut i: usize = 0;
        while i < j
            invariant
                i <= j < profiles.len(),
                views == profile_views(profiles@),
                forall|k: int| 0 <= k < i ==> (#[trigger] views[k]).level_name != views[j as int].level_name,
            decreases j - i,
        {
            if str_eq(profiles[i].level_name.as_str(), profiles[j].level_name.as_str()) {
                assert(views[i as int].level_name == views[j as int].level_name);
                return Err(ProfileError::DuplicateName);
            }
            i += 1;
        }
        assert(names_distinct(views.take(j + 1))) by {
            let next = views.take(j + 1);
            let prev = views.take(j as int);
            assert forall|a: int, b: int| 0 <= a < b < next.len() implies (#[trigger] next[a]).level_name != (
            #[trigger] next[b]).level_name by {
                if b < j {
                    assert(prev[a] == next[a] && prev[b] == next[b]);
                }
            }
        }
        j += 1;
    }
    assert(views.take(j as int) =~= views);
    Ok(())
}

/// The ladder that is used when no other is configured: the source tier,
/// a middle tier and a low tier, all advertised at 1920x1080.
pub open spec fn default_ladder() -> Seq<ProfileView> {
    seq![
        ProfileView {
            level_name: "cdn00_src"@,
            bitrate_video: "3000k"@,
            bitrate_audio: "192k"@,
            bandwidth: 4000000,
            width: 1920,
            height: 1080,
        },
        ProfileView {
            level_name: "cdn00_mid"@,
            bitrate_video: "2250k"@,
            bitrate_audio: "128k"@,
            bandwidth: 2000000,
            width: 1920,
            height: 1080,
        },
        ProfileView {
            level_name: "cdn00_low"@,
            bitrate_video: "960k"@,
            bitrate_audio: "96k"@,
            bandwidth: 960000,
            width: 1920,
            height: 1080,
        },
    ]
}

impl Profile {
    /// A profile of the given name and bitrates that is advertised with
    /// `bandwidth` at 1920x1080.
    pub fn full_hd(level_name: &str, bitrate_video: &str, bitrate_audio: &str, bandwidth: u64) -> (prof:
        Profile)
        ensures
            prof@ == (ProfileView {
                level_name: level_name@,
                bitrate_video: bitrate_video@,
                bitrate_audio: bitrate_audio@,
                bandwidth: bandwidth as nat,
                width: 1920,
                height: 1080,
            }),
    {
        Profile {
            level_name: level_name.to_owned(),
            bitrate_video: bitrate_video.to_owned(),
            bitrate_audio: bitrate_audio.to_owned(),
            bandwidth,
            width: 1920,
            height: 1080,
        }
    }
}

/// The default ladder, highest tier first.
pub fn default_profiles() -> (profiles: Vec<Profile>)
    ensures
        profile_views(profiles@) == default_ladder(),
        valid_profiles(profile_views(profiles@)),
{
    let mut profiles: Vec<Profile> = Vec::new();
    profiles.push(Profile::full_hd("cdn00_src", "3000k", "192k", 4000000));
    profiles.push(Profile::full_hd("cdn00_mid", "2250k", "128k", 2000000));
    profiles.push(Profile::full_hd("cdn00_low", "960k", "96k", 960000));
    assert(profile_views(profiles@) =~= default_ladder());
    proof {
        lemma_default_ladder_valid();
    }
    profiles
}

/// The default ladder is a profile set.
pub proof fn lemma_default_ladder_valid()
    ensures
        valid_profiles(default_ladder()),
{
    reveal_strlit("cdn00_src");
    reveal_strlit("cdn00_mid");
    reveal_strlit("cdn00_low");
    let l = default_ladder();
    assert(l[0].level_name[6] == 's');
    assert(l[1].level_name[6] == 'm');
    assert(l[2].level_name[6] == 'l');
}

} // verus!
