use ltlive::model::SnsInfo;
use ltlive::textutil::tweet_weight;
use ltlive::tweet::{
    compose_tweet, discord_footer, footer_for_index, presentation_tweet_text, random_footer,
    tweet_fits, twitter_footer, youtube_footer,
};

fn sns() -> SnsInfo {
    SnsInfo {
        youtube_stream_url: "YT".to_string(),
        discord_invitation_url: "DC".to_string(),
    }
}

#[test]
fn weight_counts_ascii_once_and_others_twice() {
    assert_eq!(tweet_weight(""), 0);
    assert_eq!(tweet_weight("abc"), 3);
    assert_eq!(tweet_weight("\u{3042}"), 2);
    assert_eq!(tweet_weight("a\u{3042}b"), 4);
    assert!(tweet_fits(&"a".repeat(280)));
    assert!(!tweet_fits(&"a".repeat(281)));
}

#[test]
fn compose_without_footers_is_the_message() {
    assert_eq!(compose_tweet("hi", false, false, false, &sns()), "hi");
}

#[test]
fn compose_appends_selected_footers_in_order() {
    assert_eq!(
        compose_tweet("hi", true, true, true, &sns()),
        "hi\n\nWatch the stream live on YouTube: YT\nJoin the community on Discord: DC\nShare your impressions with the event hashtag!"
    );
    assert_eq!(
        compose_tweet("hi", false, true, false, &sns()),
        "hi\n\nJoin the community on Discord: DC"
    );
}

#[test]
fn footer_index_selects_in_fixed_order() {
    let s = sns();
    assert_eq!(footer_for_index(&s, 0), youtube_footer(&s));
    assert_eq!(footer_for_index(&s, 1), discord_footer(&s));
    assert_eq!(footer_for_index(&s, 2), twitter_footer());
}

#[test]
fn random_footer_is_always_one_of_the_three() {
    let s = sns();
    let all = [youtube_footer(&s), discord_footer(&s), twitter_footer()];
    for _ in 0..64 {
        let f = random_footer(&s);
        assert!(all.contains(&f));
    }
}

#[test]
fn presentation_announcement_has_title_presenter_and_footer() {
    assert_eq!(
        presentation_tweet_text("Intro", "Ann", "F"),
        "Starting now: Intro by Ann\n\nF"
    );
}
