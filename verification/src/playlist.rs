//! The master playlist that lists every rendition.

use crate::profile::{profile_views, Profile, ProfileView};
use crate::text::{decimal, push_decimal};
use vstd::prelude::*;
use vstd::utf8::encode_utf8;

verus! {

/// The format identifier line and the version line.
pub open spec fn playlist_header() -> Seq<char> {
    "#EXTM3U\n"@ + "#EXT-X-VERSION:3\n"@
}

/// The stream info line of a rendition, with the bandwidth and resolution
/// that its profile advertises, and the line with the path of its index
/// file relative to the playlist.
pub open spec fn playlist_entry(prof: ProfileView) -> Seq<char> {
    "#EXT-X-STREAM-INF:BANDWIDTH="@ + decimal(prof.bandwidth) + ",RESOLUTION="@ + decimal(
        prof.width,
    ) + "x"@ + decimal(prof.height) + "\n"@ + prof.level_name + "/index.m3u8\n"@
}

/// The entries of the profiles, one after the other in the profiles' order.
pub open spec fn playlist_entries(profiles: Seq<ProfileView>) -> Seq<char>
    decreases profiles.len(),
{
    if profiles.len() == 0 {
        Seq::empty()
    } else {
        playlist_entries(profiles.drop_last()) + playlist_entry(profiles.last())
    }
}

/// The whole master playlist: the header, then one entry per profile.
/// Nothing stands between the lines and nothing follows the last entry.
pub open spec fn playlist_text(profiles: Seq<ProfileView>) -> Seq<char> {
    playlist_header() + playlist_entries(profiles)
}

/// Where the master playlist lies below the output root.
pub open spec fn playlist_location(root: Seq<char>) -> Seq<char> {
    root + "/cdn00.m3u8"@
}

/// Path of the master playlist below the output root `root`.
pub fn playlist_path(root: &str) -> (path: String)
    ensures
        path@ == playlist_location(root@),
{
    let mut path = root.to_owned();
    path.append("/cdn00.m3u8");
    path
}

/// Appends the entry of one rendition to a playlist.
fn push_entry(text: &mut String, prof: &Profile)
    ensures
        final(text)@ == old(text)@ + playlist_entry(prof@),
{
    text.append("#EXT-X-STREAM-INF:BANDWIDTH=");
    push_decimal(text, prof.bandwidth);
    text.append(",RESOLUTION=");
    push_decimal(text, prof.width as u64);
    text.append("x");
    push_decimal(text, prof.height as u64);
    text.append("\n");
    text.append(prof.level_name.as_str());
    text.append("/index.m3u8\n");
    assert(text@ =~= old(text)@ + playlist_entry(prof@));
}

/// Writes out the master playlist of a profile set. The text depends on the
/// profiles alone: on their order, their names and what they advertise.
pub fn master_playlist(profiles: &Vec<Profile>) -> (text: String)
    ensures
        text@ == playlist_text(profile_views(profiles@)),
{
    // write the HLS header
    let mut text = "#EXTM3U\n".to_owned();
    text.append("#EXT-X-VERSION:3\n");

    // write renditions
    let ghost views = profile_views(profiles@);
    let mut i: usize = 0;
    while i < profiles.len()
        invariant
            i <= profiles.len(),
            views == profile_views(profiles@),
            text@ == playlist_header() + playlist_entries(views.take(i as int)),
        decreases profiles.len() - i,
    {
        push_entry(&mut text, &profiles[i]);
        proof {
            let next = views.take(i + 1);
            assert(next.drop_last() =~= views.take(i as int));
            assert(text@ =~= playlist_header() + playlist_entries(next));
        }
        i += 1;
    }
    assert(views.take(i as int) =~= views);
    text
}

/// Generating the playlist again for a profile set that says the same gives
/// the same text, byte for byte.
pub proof fn lemma_playlist_repeatable(
    first: Seq<Profile>,
    second: Seq<Profile>,
    first_text: String,
    second_text: String,
)
    requires
        profile_views(first) == profile_views(second),
        first_text@ == playlist_text(profile_views(first)),
        second_text@ == playlist_text(profile_views(second)),
    ensures
        first_text@ == second_text@,
        encode_utf8(first_text@) == encode_utf8(second_text@),
{
}

} // verus!
