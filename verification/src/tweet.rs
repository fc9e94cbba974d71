//! Announcement texts: footer blocks, the composed tweet body, and the
//! random footer used for presentation announcements.

use vstd::prelude::*;

use crate::model::SnsInfo;
use crate::textutil::{spec_tweet_weight, tweet_weight};

verus! {

/// The footer block advertising the live stream.
pub open spec fn spec_youtube_footer(youtube_url: Seq<char>) -> Seq<char> {
    "Watch the stream live on YouTube: "@ + youtube_url
}

/// The footer block inviting viewers to the Discord community.
pub open spec fn spec_discord_footer(invitation_url: Seq<char>) -> Seq<char> {
    "Join the community on Discord: "@ + invitation_url
}

/// The fixed footer block asking viewers to share their impressions.
pub open spec fn spec_twitter_footer() -> Seq<char> {
    "Share your impressions with the event hashtag!"@
}

/// Builds the stream footer.
pub fn youtube_footer(sns: &SnsInfo) -> (r: String)
    ensures
        r@ == spec_youtube_footer(sns.youtube_stream_url@),
{
    let mut t = String::from_str("Watch the stream live on YouTube: ");
    t.append(sns.youtube_stream_url.as_str());
    t
}

/// Builds the invitation footer.
pub fn discord_footer(sns: &SnsInfo) -> (r: String)
    ensures
        r@ == spec_discord_footer(sns.discord_invitation_url@),
{
    let mut t = String::from_str("Join the community on Discord: ");
    t.append(sns.discord_invitation_url.as_str());
    t
}

/// Builds the fixed hashtag footer.
pub fn twitter_footer() -> (r: String)
    ensures
        r@ == spec_twitter_footer(),
{
    String::from_str("Share your impressions with the event hashtag!")
}

/// The body of a staff tweet: the message, then each selected footer as
/// its own block, separated by blank lines, in the fixed order stream,
/// invitation, hashtag.
pub open spec fn spec_compose_tweet(
    msg: Seq<char>,
    with_youtube: bool,
    with_discord: bool,
    with_twitter: bool,
    sns: SnsInfo,
) -> Seq<char> {
    let base = if with_youtube || with_discord || with_twitter {
        msg + seq!['\n']
    } else {
        msg
    };
    let b1 = if with_youtube {
        base + seq!['\n'] + spec_youtube_footer(sns.youtube_stream_url@)
    } else {
        base
    };
    let b2 = if with_discord {
        b1 + seq!['\n'] + spec_discord_footer(sns.discord_invitation_url@)
    } else {
        b1
    };
    if with_twitter {
        b2 + seq!['\n'] + spec_twitter_footer()
    } else {
        b2
    }
}

/// Assembles the tweet body with its selected footers.
pub fn compose_tweet(
    msg: &str,
    with_youtube: bool,
    with_discord: bool,
    with_twitter: bool,
    sns: &SnsInfo,
) -> (r: String)
    ensures
        r@ == spec_compose_tweet(msg@, with_youtube, with_discord, with_twitter, *sns),
{
    let mut t = String::from_str(msg);
    proof {
        reveal_strlit("\n");
    }
    if with_youtube || with_discord || with_twitter {
        t.append("\n");
    }
    if with_youtube {
        t.append("\n");
        t.append(youtube_footer(sns).as_str());
    }
    if with_discord {
        t.append("\n");
        t.append(discord_footer(sns).as_str());
    }
    if with_twitter {
        t.append("\n");
        t.append(twitter_footer().as_str());
    }
    proof {
        assert("\n"@ =~= seq!['\n']);
    }
    t
}

/// A tweet may be posted when its length score does not exceed 280.
pub open spec fn spec_tweet_fits(s: Seq<char>) -> bool {
    spec_tweet_weight(s) <= 280
}

/// Checks the announcement length guard.
pub fn tweet_fits(s: &str) -> (r: bool)
    ensures
        r == spec_tweet_fits(s@),
{
    tweet_weight(s) <= 280
}

/// The announcement text for the presentation now starting, ending in
/// one footer block.
pub open spec fn spec_presentation_tweet(
    title: Seq<char>,
    presenter_name: Seq<char>,
    footer: Seq<char>,
) -> Seq<char> {
    "Starting now: "@ + title + " by "@ + presenter_name + seq!['\n', '\n'] + footer
}

/// Builds the presentation announcement around the given footer.
pub fn presentation_tweet_text(title: &str, presenter_name: &str, footer: &str) -> (r: String)
    ensures
        r@ == spec_presentation_tweet(title@, presenter_name@, footer@),
{
    let mut t = String::from_str("Starting now: ");
    t.append(title);
    t.append(" by ");
    t.append(presenter_name);
    t.append("\n\n");
    t.append(footer);
    proof {
        reveal_strlit("\n\n");
        assert("\n\n"@ =~= seq!['\n', '\n']);
    }
    t
}

/// True of every text the random footer draw can produce.
pub open spec fn spec_is_footer(f: Seq<char>, sns: SnsInfo) -> bool {
    ||| f == spec_youtube_footer(sns.youtube_stream_url@)
    ||| f == spec_discord_footer(sns.discord_invitation_url@)
    ||| f == spec_twitter_footer()
}

/// The footer block selected by an index below 3, in the fixed order
/// stream, invitation, hashtag.
pub fn footer_for_index(sns: &SnsInfo, index: u8) -> (r: String)
    requires
        index < 3,
    ensures
        index == 0 ==> r@ == spec_youtube_footer(sns.youtube_stream_url@),
        index == 1 ==> r@ == spec_discord_footer(sns.discord_invitation_url@),
        index == 2 ==> r@ == spec_twitter_footer(),
{
    if index == 0 {
        youtube_footer(sns)
    } else if index == 1 {
        discord_footer(sns)
    } else {
        twitter_footer()
    }
}

/// Relies on rand::random: draws a value from the thread-local generator.
/// Nothing can be promised of the result.
pub assume_specification<T>[ rand::random::<T> ]() -> (r: T)
    where
        rand::distributions::Standard: rand::distributions::Distribution<T>,
;

/// One of the three footer blocks, drawn uniformly at random.
pub fn random_footer(sns: &SnsInfo) -> (r: String)
    ensures
        spec_is_footer(r@, *sns),
{
    let b: u8 = rand::random::<u8>();
    footer_for_index(sns, b % 3)
}

} // verus!
