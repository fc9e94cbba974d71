//! The command dispatcher: from a parsed command and the shared state to
//! the reply text, the overlay events, the stream-control action, the
//! snapshot to persist, and the announcement to post.
//!
//! Outside work is handed back to the caller as data: a
//! [`DispatchResult::Post`] asks the caller to post the body and then
//! build the reply with [`post_reply`]; a [`DispatchResult::FetchUser`]
//! asks it to resolve the mentioned user and then finish with
//! [`push_resolved`] (or reply with [`user_fetch_failed_reply`] when the
//! lookup fails).

use vstd::prelude::*;

use crate::model::{Page, Presentation, PresentationView, SnsInfo, User};
use crate::overlay::{ScreenAction, ScreenActionView};
use crate::parser::{
    spec_mention_value, Command, CommandView, extract_user_id_from_mention, PresentationCommand,
    PresentationCommandView,
};
use crate::queue::{spec_render_list, Presentations};
use crate::snapshot::{encode_snapshot, spec_encode_snapshot};
use crate::textutil::{render_dec_u128, spec_dec, spec_tweet_weight, tweet_weight};
use crate::tweet::{
    compose_tweet, footer_for_index, presentation_tweet_text, spec_compose_tweet,
    spec_discord_footer, spec_presentation_tweet, spec_tweet_fits, spec_twitter_footer,
    spec_youtube_footer, tweet_fits,
};

verus! {

/// Mathematical view of a [`ListenerState`].
#[verifier::ext_equal]
pub struct ListenerStateView {
    pub listening_channel_id: Option<u64>,
    pub my_id: Option<u64>,
    pub current_presentation: Option<PresentationView>,
}

/// The per-listener shared state: which channel is forwarded to the
/// timeline, the bot's own account, and the presentation most recently
/// popped (kept for its announcement).
pub struct ListenerState {
    pub listening_channel_id: Option<u64>,
    pub my_id: Option<u64>,
    pub current_presentation: Option<Presentation>,
}

impl View for ListenerState {
    type V = ListenerStateView;

    open spec fn view(&self) -> ListenerStateView {
        ListenerStateView {
            listening_channel_id: self.listening_channel_id,
            my_id: self.my_id,
            current_presentation: match &self.current_presentation {
                Some(p) => Some(p@),
                None => None,
            },
        }
    }
}

impl ListenerState {
    /// The state of a freshly started listener.
    pub fn new() -> (r: Self)
        ensures
            r@ == (ListenerStateView {
                listening_channel_id: None,
                my_id: None,
                current_presentation: None,
            }),
    {
        ListenerState { listening_channel_id: None, my_id: None, current_presentation: None }
    }
}

/// A stream-control request attached to a pause or resume.
#[derive(Debug, Clone, Copy, PartialEq, Eq, Structural)]
pub enum ObsAction {
    Mute,
    UnMute,
}

/// Which announcement produced a posted body, deciding the reply shape.
#[derive(Debug, Clone, Copy, PartialEq, Eq, Structural)]
pub enum PostKind {
    Plain,
    Presentation,
}

/// Mathematical view of [`Effects`].
#[verifier::ext_equal]
pub struct EffectsView {
    pub reply: Seq<char>,
    pub events: Seq<ScreenActionView>,
    pub obs: Option<ObsAction>,
    pub snapshot: Option<Seq<char>>,
}

/// Everything a finished command asks of the caller: the reply to send,
/// the overlay events to emit, an optional stream-control action, and
/// the snapshot text to persist before the mutation counts as done.
pub struct Effects {
    pub reply: String,
    pub events: Vec<ScreenAction>,
    pub obs: Option<ObsAction>,
    pub snapshot: Option<String>,
}

impl View for Effects {
    type V = EffectsView;

    open spec fn view(&self) -> EffectsView {
        EffectsView {
            reply: self.reply@,
            events: self.events.deep_view(),
            obs: self.obs,
            snapshot: match &self.snapshot {
                Some(s) => Some(s@),
                None => None,
            },
        }
    }
}

/// Mathematical view of a [`DispatchResult`].
#[verifier::ext_equal]
pub enum DispatchResultView {
    Done(EffectsView),
    Post { body: Seq<char>, kind: PostKind },
    FetchUser { uid: u64, title: Seq<char> },
}

/// What dispatching one command decided.
pub enum DispatchResult {
    /// The command is finished; act on the effects.
    Done(Effects),
    /// Post `body` through the announcer, then reply via [`post_reply`].
    Post { body: String, kind: PostKind },
    /// Resolve the user, then push via [`push_resolved`].
    FetchUser { uid: u64, title: String },
}

impl View for DispatchResult {
    type V = DispatchResultView;

    open spec fn view(&self) -> DispatchResultView {
        match self {
            DispatchResult::Done(e) => DispatchResultView::Done(e@),
            DispatchResult::Post { body, kind } => DispatchResultView::Post {
                body: body@,
                kind: *kind,
            },
            DispatchResult::FetchUser { uid, title } => DispatchResultView::FetchUser {
                uid: *uid,
                title: title@,
            },
        }
    }
}

/// The documentation link every help reply points at.
pub open spec fn spec_doc_link() -> Seq<char> {
    "https://hackmd.io/@U9f9Fv6rTt2UkRA6UriFTA/BJRVQlTZO"@
}

/// The help reply: the hint (when there is one), then the link.
pub open spec fn spec_help_reply(hint: Option<Seq<char>>) -> Seq<char> {
    match hint {
        None => spec_doc_link(),
        Some(h) => h + seq!['\n'] + spec_doc_link(),
    }
}

/// A finished command that only replies: no events, no stream-control
/// action, no snapshot.
pub open spec fn spec_done_reply(reply: Seq<char>) -> DispatchResultView {
    DispatchResultView::Done(
        EffectsView { reply, events: Seq::empty(), obs: None, snapshot: None },
    )
}

/// The reply when a command needs the overlay but it is not connected
/// yet.
pub open spec fn spec_not_ready() -> DispatchResultView {
    spec_done_reply("webview was not ready"@)
}

/// The reply confirming which channel is now forwarded.
pub open spec fn spec_listen_reply(channel_id: u64) -> Seq<char> {
    "now listening at <#"@ + spec_dec(channel_id as nat) + ">"@
}

/// The reply rejecting an over-long announcement, naming its score.
pub open spec fn spec_too_long_reply(weight: nat) -> Seq<char> {
    "Tweet length is longer than 280("@ + spec_dec(weight)
        + "). Shorten the message or the footer."@
}

/// The echo reply of a simulated staff tweet.
pub open spec fn spec_tweet_sim_reply(body: Seq<char>) -> Seq<char> {
    "Tweet simulation.\nbody:\n```\n"@ + body + "\n```"@
}

/// The echo reply of a simulated presentation announcement.
pub open spec fn spec_pres_sim_reply(body: Seq<char>) -> Seq<char> {
    "Simulation.\nbody: ```\n"@ + body + "\n```"@
}

/// The footer block a draw of `rand_byte` selects.
pub open spec fn spec_footer_for(rand_byte: u8, sns: SnsInfo) -> Seq<char> {
    if rand_byte % 3 == 0 {
        spec_youtube_footer(sns.youtube_stream_url@)
    } else if rand_byte % 3 == 1 {
        spec_discord_footer(sns.discord_invitation_url@)
    } else {
        spec_twitter_footer()
    }
}

/// What dispatching a `presentations` sub-command must do.
pub open spec fn dispatch_pres_spec(
    p: PresentationCommandView,
    s0: ListenerStateView,
    q0: Seq<PresentationView>,
    s1: ListenerStateView,
    q1: Seq<PresentationView>,
    webview_ready: bool,
    r: DispatchResultView,
) -> bool {
    match p {
        PresentationCommandView::List => s1 == s0 && q1 == q0 && r == spec_done_reply(
            "```\n"@ + spec_render_list(q0) + "\n```"@,
        ),
        PresentationCommandView::Reorder { map } => s1 == s0 && q1 == q0 && r == spec_done_reply(
            "unimplemented"@,
        ),
        PresentationCommandView::Pop => if !webview_ready {
            s1 == s0 && q1 == q0 && r == spec_not_ready()
        } else if q0.len() == 0 {
            s1 == s0 && q1 == q0 && r == spec_done_reply("no other entries in queue"@)
        } else {
            &&& q1 == q0.skip(1)
            &&& s1 == (ListenerStateView { current_presentation: Some(q0[0]), ..s0 })
            &&& r == DispatchResultView::Done(
                EffectsView {
                    reply: "popped(removed an entry at 0 index and updated ongoing presentation)\nDO NOT FORGET TO TWEET!"@,
                    events: seq![
                        ScreenActionView::UpcomingPresentationsUpdate { pending: q1 },
                        ScreenActionView::PresentationUpdate {
                            presenter: q0[0].presenter,
                            title: q0[0].title,
                        },
                    ],
                    obs: None,
                    snapshot: Some(spec_encode_snapshot(q1)),
                },
            )
        },
        PresentationCommandView::Remove { index } => if !webview_ready {
            s1 == s0 && q1 == q0 && r == spec_not_ready()
        } else if index < q0.len() {
            &&& s1 == s0
            &&& q1 == q0.remove(index as int)
            &&& r == DispatchResultView::Done(
                EffectsView {
                    reply: "removed"@,
                    events: seq![ScreenActionView::UpcomingPresentationsUpdate { pending: q1 }],
                    obs: None,
                    snapshot: Some(spec_encode_snapshot(q1)),
                },
            )
        } else {
            s1 == s0 && q1 == q0 && r == spec_done_reply("not found such entry"@)
        },
        PresentationCommandView::Update { index, new_title } => if !webview_ready {
            s1 == s0 && q1 == q0 && r == spec_not_ready()
        } else if index < q0.len() {
            &&& s1 == s0
            &&& q1 == q0.update(
                index as int,
                PresentationView { title: new_title, ..q0[index as int] },
            )
            &&& r == DispatchResultView::Done(
                EffectsView {
                    reply: "overwrote"@,
                    events: seq![ScreenActionView::UpcomingPresentationsUpdate { pending: q1 }],
                    obs: None,
                    snapshot: Some(spec_encode_snapshot(q1)),
                },
            )
        } else {
            s1 == s0 && q1 == q0 && r == spec_done_reply("not found such entry"@)
        },
        PresentationCommandView::Push { user_mention, title } => if !webview_ready {
            s1 == s0 && q1 == q0 && r == spec_not_ready()
        } else {
            s1 == s0 && q1 == q0 && (match spec_mention_value(user_mention) {
                Some(n) => if n <= u64::MAX {
                    r == DispatchResultView::FetchUser { uid: n as u64, title }
                } else {
                    r == spec_done_reply("1st argument must be user mention"@)
                },
                None => r == spec_done_reply("1st argument must be user mention"@),
            })
        },
    }
}

/// What dispatching a command must do: how the state and the queue may
/// change, and which result comes back, for every command and every
/// starting state.
pub open spec fn dispatch_spec(
    cmd: CommandView,
    s0: ListenerStateView,
    q0: Seq<PresentationView>,
    s1: ListenerStateView,
    q1: Seq<PresentationView>,
    sns: SnsInfo,
    webview_ready: bool,
    channel_id: u64,
    rand_byte: u8,
    r: DispatchResultView,
) -> bool {
    match cmd {
        CommandView::Help(hint) => s1 == s0 && q1 == q0 && r == spec_done_reply(
            spec_help_reply(hint),
        ),
        CommandView::Listen => q1 == q0 && s1 == (ListenerStateView {
            listening_channel_id: Some(channel_id),
            ..s0
        }) && r == spec_done_reply(spec_listen_reply(channel_id)),
        CommandView::StopListening => q1 == q0 && (match s0.listening_channel_id {
            Some(_) => s1 == (ListenerStateView { listening_channel_id: None, ..s0 }) && r
                == spec_done_reply("stopped"@),
            None => s1 == s0 && r == spec_done_reply("currently not listening any channel"@),
        }),
        CommandView::SetNotification(text) => s1 == s0 && q1 == q0 && if webview_ready {
            r == DispatchResultView::Done(
                EffectsView {
                    reply: "set"@,
                    events: seq![ScreenActionView::NotificationUpdate { text }],
                    obs: None,
                    snapshot: None,
                },
            )
        } else {
            r == spec_not_ready()
        },
        CommandView::TimelineClear => s1 == s0 && q1 == q0 && if webview_ready {
            r == DispatchResultView::Done(
                EffectsView {
                    reply: "cleared"@,
                    events: seq![ScreenActionView::TimelineClear],
                    obs: None,
                    snapshot: None,
                },
            )
        } else {
            r == spec_not_ready()
        },
        CommandView::Pause => s1 == s0 && q1 == q0 && if webview_ready {
            r == DispatchResultView::Done(
                EffectsView {
                    reply: "switching requested"@,
                    events: seq![ScreenActionView::SwitchPage(Page::WaitingScreen)],
                    obs: Some(ObsAction::Mute),
                    snapshot: None,
                },
            )
        } else {
            r == spec_not_ready()
        },
        CommandView::Resume => s1 == s0 && q1 == q0 && if webview_ready {
            r == DispatchResultView::Done(
                EffectsView {
                    reply: "switching requested"@,
                    events: seq![ScreenActionView::SwitchPage(Page::LTScreen)],
                    obs: Some(ObsAction::UnMute),
                    snapshot: None,
                },
            )
        } else {
            r == spec_not_ready()
        },
        CommandView::Presentation(p) => dispatch_pres_spec(p, s0, q0, s1, q1, webview_ready, r),
        CommandView::Tweet {
            with_youtube_footer,
            with_discord_footer,
            with_twitter_footer,
            msg,
            simulation,
        } => s1 == s0 && q1 == q0 && {
            let body = spec_compose_tweet(
                msg,
                with_youtube_footer,
                with_discord_footer,
                with_twitter_footer,
                sns,
            );
            if !spec_tweet_fits(body) {
                r == spec_done_reply(spec_too_long_reply(spec_tweet_weight(body)))
            } else if simulation {
                r == spec_done_reply(spec_tweet_sim_reply(body))
            } else {
                r == DispatchResultView::Post { body, kind: PostKind::Plain }
            }
        },
        CommandView::PresentationTweet { simulation } => s1 == s0 && q1 == q0 && (
        match s0.current_presentation {
            None => r == spec_done_reply("internal error: current_presentation was None"@),
            Some(pre) => {
                let body = spec_presentation_tweet(
                    pre.title,
                    pre.presenter.name,
                    spec_footer_for(rand_byte, sns),
                );
                if !spec_tweet_fits(body) {
                    r == spec_done_reply(spec_too_long_reply(spec_tweet_weight(body)))
                } else if simulation {
                    r == spec_done_reply(spec_pres_sim_reply(body))
                } else {
                    r == DispatchResultView::Post { body, kind: PostKind::Presentation }
                }
            },
        }),
    }
}

fn done_reply_str(reply: &str) -> (r: DispatchResult)
    ensures
        r@ == spec_done_reply(reply@),
{
    let e = Effects {
        reply: String::from_str(reply),
        events: Vec::new(),
        obs: None,
        snapshot: None,
    };
    proof {
        assert(e.events.deep_view() =~= Seq::<ScreenActionView>::empty());
        assert(e@ =~= EffectsView {
            reply: reply@,
            events: Seq::empty(),
            obs: None,
            snapshot: None,
        });
    }
    DispatchResult::Done(e)
}

fn done_reply_string(reply: String) -> (r: DispatchResult)
    ensures
        r@ == spec_done_reply(reply@),
{
    let ghost rv = reply@;
    let e = Effects { reply, events: Vec::new(), obs: None, snapshot: None };
    proof {
        assert(e.events.deep_view() =~= Seq::<ScreenActionView>::empty());
        assert(e@ =~= EffectsView { reply: rv, events: Seq::empty(), obs: None, snapshot: None });
    }
    DispatchResult::Done(e)
}

/// Builds the help reply around an optional hint.
fn help_reply(hint: &Option<String>) -> (r: String)
    ensures
        r@ =~= spec_help_reply(
            match hint {
                Some(h) => Some(h@),
                None => None,
            },
        ),
{
    proof {
        reveal_strlit("\n");
    }
    match hint {
        None => String::from_str("https://hackmd.io/@U9f9Fv6rTt2UkRA6UriFTA/BJRVQlTZO"),
        Some(h) => {
            let mut t = String::from_str(h.as_str());
            t.append("\n");
            t.append("https://hackmd.io/@U9f9Fv6rTt2UkRA6UriFTA/BJRVQlTZO");
            proof {
                assert("\n"@ =~= seq!['\n']);
            }
            t
        },
    }
}

/// The reply sent when the mentioned user cannot be resolved.
pub fn user_fetch_failed_reply() -> (r: String)
    ensures
        r@
            == "couldn't get user info. please check user mention is correct. read log for more info."@,
{
    String::from_str(
        "couldn't get user info. please check user mention is correct. read log for more info.",
    )
}

/// Finishes a push once the caller resolved the mentioned user: appends
/// the presentation, and asks for the pending-list event and the
/// snapshot write.
pub fn push_resolved(queue: &mut Presentations, user: User, title: String) -> (e: Effects)
    ensures
        final(queue)@ =~= old(queue)@.push(PresentationView { presenter: user@, title: title@ }),
        e@ == (EffectsView {
            reply: "pushed"@,
            events: seq![
                ScreenActionView::UpcomingPresentationsUpdate { pending: final(queue)@ },
            ],
            obs: None,
            snapshot: Some(spec_encode_snapshot(final(queue)@)),
        }),
{
    let p = Presentation { presenter: user, title };
    queue.push(p);
    let snapshot = encode_snapshot(queue);
    let mut events: Vec<ScreenAction> = Vec::new();
    events.push(ScreenAction::UpcomingPresentationsUpdate { pending: queue.to_snapshot() });
    let e = Effects {
        reply: String::from_str("pushed"),
        events,
        obs: None,
        snapshot: Some(snapshot),
    };
    proof {
        assert(e.events.deep_view() =~= seq![
            ScreenActionView::UpcomingPresentationsUpdate { pending: final(queue)@ },
        ]);
        assert(e@ =~= EffectsView {
            reply: "pushed"@,
            events: seq![
                ScreenActionView::UpcomingPresentationsUpdate { pending: final(queue)@ },
            ],
            obs: None,
            snapshot: Some(spec_encode_snapshot(final(queue)@)),
        });
    }
    e
}

/// Mathematical view of a [`PostOutcome`].
#[verifier::ext_equal]
pub enum PostOutcomeView {
    Posted(Seq<char>),
    Unavailable,
    Failed,
}

/// What posting an announcement came to: a link, no announcer in this
/// deployment, or a failure.
#[derive(Debug)]
pub enum PostOutcome {
    Posted(String),
    Unavailable,
    Failed,
}

impl View for PostOutcome {
    type V = PostOutcomeView;

    open spec fn view(&self) -> PostOutcomeView {
        match self {
            PostOutcome::Posted(s) => PostOutcomeView::Posted(s@),
            PostOutcome::Unavailable => PostOutcomeView::Unavailable,
            PostOutcome::Failed => PostOutcomeView::Failed,
        }
    }
}

/// The reply after a post: the link (or `unavailable`) and the body for
/// operator verification, or the failure notice.
pub open spec fn spec_post_reply(kind: PostKind, body: Seq<char>, outcome: PostOutcomeView) -> Seq<
    char,
> {
    match outcome {
        PostOutcomeView::Failed => "failed to tweet. read log for more details."@,
        PostOutcomeView::Posted(link) => match kind {
            PostKind::Plain => "Tweeted.\nlink: "@ + link + "\nbody:\n```\n"@ + body + "\n```"@,
            PostKind::Presentation => "Twitted.\nlink: "@ + link + "\nbody: ```\n"@ + body
                + "\n```"@,
        },
        PostOutcomeView::Unavailable => match kind {
            PostKind::Plain => "Tweeted.\nlink: "@ + "unavailable"@ + "\nbody:\n```\n"@ + body
                + "\n```"@,
            PostKind::Presentation => "Twitted.\nlink: "@ + "unavailable"@ + "\nbody: ```\n"@
                + body + "\n```"@,
        },
    }
}

/// Builds the reply after the caller posted (or failed to post) an
/// announcement body.
pub fn post_reply(kind: PostKind, body: &str, outcome: &PostOutcome) -> (r: String)
    ensures
        r@ =~= spec_post_reply(kind, body@, outcome@),
{
    match outcome {
        PostOutcome::Failed => String::from_str("failed to tweet. read log for more details."),
        PostOutcome::Posted(link) => post_success_reply(kind, body, link.as_str()),
        PostOutcome::Unavailable => post_success_reply(kind, body, "unavailable"),
    }
}

fn post_success_reply(kind: PostKind, body: &str, link: &str) -> (r: String)
    ensures
        kind == PostKind::Plain ==> r@ =~= "Tweeted.\nlink: "@ + link@ + "\nbody:\n```\n"@ + body@
            + "\n```"@,
        kind == PostKind::Presentation ==> r@ =~= "Twitted.\nlink: "@ + link@ + "\nbody: ```\n"@
            + body@ + "\n```"@,
{
    match kind {
        PostKind::Plain => {
            let mut t = String::from_str("Tweeted.\nlink: ");
            t.append(link);
            t.append("\nbody:\n```\n");
            t.append(body);
            t.append("\n```");
            t
        },
        PostKind::Presentation => {
            let mut t = String::from_str("Twitted.\nlink: ");
            t.append(link);
            t.append("\nbody: ```\n");
            t.append(body);
            t.append("\n```");
            t
        },
    }
}

fn too_long_reply(weight: u128) -> (r: String)
    ensures
        r@ =~= spec_too_long_reply(weight as nat),
{
    let mut t = String::from_str("Tweet length is longer than 280(");
    let num = render_dec_u128(weight);
    t.append(num.as_str());
    t.append("). Shorten the message or the footer.");
    t
}

fn tweet_sim_reply(body: &str) -> (r: String)
    ensures
        r@ =~= spec_tweet_sim_reply(body@),
{
    let mut t = String::from_str("Tweet simulation.\nbody:\n```\n");
    t.append(body);
    t.append("\n```");
    t
}

fn pres_sim_reply(body: &str) -> (r: String)
    ensures
        r@ =~= spec_pres_sim_reply(body@),
{
    let mut t = String::from_str("Simulation.\nbody: ```\n");
    t.append(body);
    t.append("\n```");
    t
}

fn single_event(reply: &str, ev: ScreenAction, obs: Option<ObsAction>) -> (r: DispatchResult)
    ensures
        r@ == DispatchResultView::Done(
            EffectsView {
                reply: reply@,
                events: seq![ev@],
                obs,
                snapshot: None,
            },
        ),
{
    let ghost ev_view = ev@;
    let mut events: Vec<ScreenAction> = Vec::new();
    events.push(ev);
    let e = Effects { reply: String::from_str(reply), events, obs, snapshot: None };
    proof {
        assert(e.events.deep_view() =~= seq![ev_view]);
        assert(e@ =~= EffectsView {
            reply: reply@,
            events: seq![ev_view],
            obs,
            snapshot: None,
        });
    }
    DispatchResult::Done(e)
}

fn dispatch_presentation(
    p: PresentationCommand,
    state: &mut ListenerState,
    queue: &mut Presentations,
    webview_ready: bool,
) -> (r: DispatchResult)
    ensures
        dispatch_pres_spec(
            p@,
            old(state)@,
            old(queue)@,
            final(state)@,
            final(queue)@,
            webview_ready,
            r@,
        ),
{
    match p {
        PresentationCommand::List => {
            let mut t = String::from_str("```\n");
            let listing = queue.list();
            t.append(listing.as_str());
            t.append("\n```");
            done_reply_string(t)
        },
        PresentationCommand::Reorder { map } => done_reply_str("unimplemented"),
        PresentationCommand::Pop => {
            if !webview_ready {
                return done_reply_str("webview was not ready");
            }
            match queue.pop() {
                None => done_reply_str("no other entries in queue"),
                Some(popped) => {
                    let snapshot = encode_snapshot(queue);
                    let mut events: Vec<ScreenAction> = Vec::new();
                    events.push(
                        ScreenAction::UpcomingPresentationsUpdate { pending: queue.to_snapshot() },
                    );
                    events.push(
                        ScreenAction::PresentationUpdate {
                            presenter: popped.presenter.clone(),
                            title: popped.title.clone(),
                        },
                    );
                    let ghost popped_view = popped@;
                    state.current_presentation = Some(popped);
                    let e = Effects {
                        reply: String::from_str(
                            "popped(removed an entry at 0 index and updated ongoing presentation)\nDO NOT FORGET TO TWEET!",
                        ),
                        events,
                        obs: None,
                        snapshot: Some(snapshot),
                    };
                    proof {
                        assert(e.events.deep_view() =~= seq![
                            ScreenActionView::UpcomingPresentationsUpdate {
                                pending: final(queue)@,
                            },
                            ScreenActionView::PresentationUpdate {
                                presenter: popped_view.presenter,
                                title: popped_view.title,
                            },
                        ]);
                        assert(final(state)@ =~= ListenerStateView {
                            current_presentation: Some(old(queue)@[0]),
                            ..old(state)@
                        });
                        assert(e@ =~= EffectsView {
                            reply: "popped(removed an entry at 0 index and updated ongoing presentation)\nDO NOT FORGET TO TWEET!"@,
                            events: seq![
                                ScreenActionView::UpcomingPresentationsUpdate {
                                    pending: final(queue)@,
                                },
                                ScreenActionView::PresentationUpdate {
                                    presenter: old(queue)@[0].presenter,
                                    title: old(queue)@[0].title,
                                },
                            ],
                            obs: None,
                            snapshot: Some(spec_encode_snapshot(final(queue)@)),
                        });
                    }
                    DispatchResult::Done(e)
                },
            }
        },
        PresentationCommand::Remove { index } => {
            if !webview_ready {
                return done_reply_str("webview was not ready");
            }
            if queue.remove(index) {
                let snapshot = encode_snapshot(queue);
                let mut events: Vec<ScreenAction> = Vec::new();
                events.push(
                    ScreenAction::UpcomingPresentationsUpdate { pending: queue.to_snapshot() },
                );
                let e = Effects {
                    reply: String::from_str("removed"),
                    events,
                    obs: None,
                    snapshot: Some(snapshot),
                };
                proof {
                    assert(e.events.deep_view() =~= seq![
                        ScreenActionView::UpcomingPresentationsUpdate { pending: final(queue)@ },
                    ]);
                    assert(e@ =~= EffectsView {
                        reply: "removed"@,
                        events: seq![
                            ScreenActionView::UpcomingPresentationsUpdate {
                                pending: final(queue)@,
                            },
                        ],
                        obs: None,
                        snapshot: Some(spec_encode_snapshot(final(queue)@)),
                    });
                }
                DispatchResult::Done(e)
            } else {
                done_reply_str("not found such entry")
            }
        },
        PresentationCommand::Update { index, new_title } => {
            if !webview_ready {
                return done_reply_str("webview was not ready");
            }
            if queue.update(index, new_title) {
                let snapshot = encode_snapshot(queue);
                let mut events: Vec<ScreenAction> = Vec::new();
                events.push(
                    ScreenAction::UpcomingPresentationsUpdate { pending: queue.to_snapshot() },
                );
                let e = Effects {
                    reply: String::from_str("overwrote"),
                    events,
                    obs: None,
                    snapshot: Some(snapshot),
                };
                proof {
                    assert(e.events.deep_view() =~= seq![
                        ScreenActionView::UpcomingPresentationsUpdate { pending: final(queue)@ },
                    ]);
                    assert(e@ =~= EffectsView {
                        reply: "overwrote"@,
                        events: seq![
                            ScreenActionView::UpcomingPresentationsUpdate {
                                pending: final(queue)@,
                            },
                        ],
                        obs: None,
                        snapshot: Some(spec_encode_snapshot(final(queue)@)),
                    });
                }
                DispatchResult::Done(e)
            } else {
                done_reply_str("not found such entry")
            }
        },
        PresentationCommand::Push { user_mention, title } => {
            if !webview_ready {
                return done_reply_str("webview was not ready");
            }
            match extract_user_id_from_mention(user_mention.as_str()) {
                Some(uid) => DispatchResult::FetchUser { uid, title },
                None => done_reply_str("1st argument must be user mention"),
            }
        },
    }
}

/// Dispatches one authorized command against the shared state.
///
/// `webview_ready` says whether the overlay channel is connected;
/// `channel_id` is the channel the command arrived on; `rand_byte` is
/// the random draw deciding the presentation-announcement footer.
pub fn dispatch(
    cmd: Command,
    state: &mut ListenerState,
    queue: &mut Presentations,
    sns: &SnsInfo,
    webview_ready: bool,
    channel_id: u64,
    rand_byte: u8,
) -> (r: DispatchResult)
    ensures
        dispatch_spec(
            cmd@,
            old(state)@,
            old(queue)@,
            final(state)@,
            final(queue)@,
            *sns,
            webview_ready,
            channel_id,
            rand_byte,
            r@,
        ),
{
    match cmd {
        Command::Help(hint) => {
            let t = help_reply(&hint);
            done_reply_string(t)
        },
        Command::Listen => {
            state.listening_channel_id = Some(channel_id);
            let mut t = String::from_str("now listening at <#");
            let num = render_dec_u128(channel_id as u128);
            t.append(num.as_str());
            t.append(">");
            proof {
                assert(final(state)@ =~= ListenerStateView {
                    listening_channel_id: Some(channel_id),
                    ..old(state)@
                });
            }
            done_reply_string(t)
        },
        Command::StopListening => {
            if state.listening_channel_id.is_some() {
                state.listening_channel_id = None;
                proof {
                    assert(final(state)@ =~= ListenerStateView {
                        listening_channel_id: None,
                        ..old(state)@
                    });
                }
                done_reply_str("stopped")
            } else {
                done_reply_str("currently not listening any channel")
            }
        },
        Command::SetNotification(text) => {
            if !webview_ready {
                return done_reply_str("webview was not ready");
            }
            single_event("set", ScreenAction::NotificationUpdate { text }, None)
        },
        Command::TimelineClear => {
            if !webview_ready {
                return done_reply_str("webview was not ready");
            }
            single_event("cleared", ScreenAction::TimelineClear, None)
        },
        Command::Pause => {
            if !webview_ready {
                return done_reply_str("webview was not ready");
            }
            single_event(
                "switching requested",
                ScreenAction::SwitchPage(Page::WaitingScreen),
                Some(ObsAction::Mute),
            )
        },
        Command::Resume => {
            if !webview_ready {
                return done_reply_str("webview was not ready");
            }
            single_event(
                "switching requested",
                ScreenAction::SwitchPage(Page::LTScreen),
                Some(ObsAction::UnMute),
            )
        },
        Command::Presentation(p) => dispatch_presentation(p, state, queue, webview_ready),
        Command::Tweet {
            with_youtube_footer,
            with_discord_footer,
            with_twitter_footer,
            msg,
            simulation,
        } => {
            let body = compose_tweet(
                msg.as_str(),
                with_youtube_footer,
                with_discord_footer,
                with_twitter_footer,
                sns,
            );
            if !tweet_fits(body.as_str()) {
                let w = tweet_weight(body.as_str());
                done_reply_string(too_long_reply(w))
            } else if simulation {
                done_reply_string(tweet_sim_reply(body.as_str()))
            } else {
                DispatchResult::Post { body, kind: PostKind::Plain }
            }
        },
        Command::PresentationTweet { simulation } => {
            let pre = match &state.current_presentation {
                None => {
                    return done_reply_str("internal error: current_presentation was None");
                },
                Some(p) => p,
            };
            let footer = footer_for_index(sns, rand_byte % 3);
            let body = presentation_tweet_text(
                pre.title.as_str(),
                pre.presenter.name.as_str(),
                footer.as_str(),
            );
            if !tweet_fits(body.as_str()) {
                let w = tweet_weight(body.as_str());
                done_reply_string(too_long_reply(w))
            } else if simulation {
                done_reply_string(pres_sim_reply(body.as_str()))
            } else {
                DispatchResult::Post { body, kind: PostKind::Presentation }
            }
        },
    }
}


/// Mathematical view of a [`MessageOutcome`].
#[verifier::ext_equal]
pub enum MessageOutcomeView {
    Ignored,
    CommandResult(DispatchResultView),
    Timeline { content: Seq<char> },
}

/// What one inbound chat message came to.
pub enum MessageOutcome {
    /// Nothing to do (the bot's own message, or no listened channel).
    Ignored,
    /// An authorized command ran; act on the dispatch result.
    CommandResult(DispatchResult),
    /// Forward the trimmed content to the overlay timeline.
    Timeline { content: String },
}

impl View for MessageOutcome {
    type V = MessageOutcomeView;

    open spec fn view(&self) -> MessageOutcomeView {
        match self {
            MessageOutcome::Ignored => MessageOutcomeView::Ignored,
            MessageOutcome::CommandResult(r) => MessageOutcomeView::CommandResult(r@),
            MessageOutcome::Timeline { content } => MessageOutcomeView::Timeline {
                content: content@,
            },
        }
    }
}

/// What handling one message must do. The passive timeline path is open
/// to everyone; the command path only to an authorized identity, and an
/// unauthorized command is dropped silently into the passive path.
pub open spec fn handle_message_spec(
    raw: Seq<char>,
    s0: ListenerStateView,
    q0: Seq<PresentationView>,
    s1: ListenerStateView,
    q1: Seq<PresentationView>,
    sns: SnsInfo,
    webview_ready: bool,
    author_id: u64,
    channel_id: u64,
    authorized: bool,
    rand_byte: u8,
    r: MessageOutcomeView,
) -> bool {
    if s0.my_id == Some(author_id) {
        s1 == s0 && q1 == q0 && r == MessageOutcomeView::Ignored
    } else {
        let content = crate::textutil::spec_trim(raw);
        let parsed = crate::parser::spec_parse(content);
        if authorized && parsed is Some {
            exists|rr: DispatchResultView|
                r == MessageOutcomeView::CommandResult(rr) && #[trigger] dispatch_spec(
                    parsed->Some_0,
                    s0,
                    q0,
                    s1,
                    q1,
                    sns,
                    webview_ready,
                    channel_id,
                    rand_byte,
                    rr,
                )
        } else {
            s1 == s0 && q1 == q0 && if s0.listening_channel_id == Some(channel_id) {
                r == MessageOutcomeView::Timeline { content }
            } else {
                r == MessageOutcomeView::Ignored
            }
        }
    }
}

/// Handles one inbound chat message: skips the bot's own, runs a parsed
/// command when `authorized` says the sender may, and otherwise forwards
/// the text to the timeline when its channel is the listened one.
///
/// The caller resolves authorization (fail closed via
/// [`crate::auth::can_invoke_command`]) and supplies the random draw for
/// a possible presentation announcement. The bot identity `my_id` must
/// already be set by the platform-ready handshake.
pub fn handle_message(
    raw: &str,
    state: &mut ListenerState,
    queue: &mut Presentations,
    sns: &SnsInfo,
    webview_ready: bool,
    author_id: u64,
    channel_id: u64,
    authorized: bool,
    rand_byte: u8,
) -> (r: MessageOutcome)
    requires
        old(state)@.my_id is Some,
    ensures
        handle_message_spec(
            raw@,
            old(state)@,
            old(queue)@,
            final(state)@,
            final(queue)@,
            *sns,
            webview_ready,
            author_id,
            channel_id,
            authorized,
            rand_byte,
            r@,
        ),
{
    let my_id = match state.my_id {
        Some(id) => id,
        None => {
            proof {
                assert(false);
            }
            0
        },
    };
    if my_id == author_id {
        return MessageOutcome::Ignored;
    }
    let content = crate::textutil::trim(raw);
    let parsed = crate::parser::parse(content.as_str());
    if authorized && parsed.is_some() {
        let cmd = match parsed {
            Some(c) => c,
            None => {
                proof {
                    assert(false);
                }
                Command::Listen
            },
        };
        let rr = dispatch(cmd, state, queue, sns, webview_ready, channel_id, rand_byte);
        proof {
            assert(content@ == crate::textutil::spec_trim(raw@));
            assert(parsed.deep_view() == crate::parser::spec_parse(content@));
            assert(cmd@ == crate::parser::spec_parse(crate::textutil::spec_trim(raw@))->Some_0);
            assert(dispatch_spec(
                crate::parser::spec_parse(crate::textutil::spec_trim(raw@))->Some_0,
                old(state)@,
                old(queue)@,
                final(state)@,
                final(queue)@,
                *sns,
                webview_ready,
                channel_id,
                rand_byte,
                rr@,
            ));
            assert(handle_message_spec(
                raw@,
                old(state)@,
                old(queue)@,
                final(state)@,
                final(queue)@,
                *sns,
                webview_ready,
                author_id,
                channel_id,
                authorized,
                rand_byte,
                MessageOutcomeView::CommandResult(rr@),
            ));
        }
        MessageOutcome::CommandResult(rr)
    } else {
        let listening = state.listening_channel_id == Some(channel_id);
        if listening {
            MessageOutcome::Timeline { content }
        } else {
            MessageOutcome::Ignored
        }
    }
}

/// Dispatches one authorized command, drawing the announcement footer
/// randomness itself.
pub fn dispatch_with_random(
    cmd: Command,
    state: &mut ListenerState,
    queue: &mut Presentations,
    sns: &SnsInfo,
    webview_ready: bool,
    channel_id: u64,
) -> (r: DispatchResult)
    ensures
        exists|b: u8|
            #[trigger] dispatch_spec(
                cmd@,
                old(state)@,
                old(queue)@,
                final(state)@,
                final(queue)@,
                *sns,
                webview_ready,
                channel_id,
                b,
                r@,
            ),
{
    let b: u8 = rand::random::<u8>();
    let r = dispatch(cmd, state, queue, sns, webview_ready, channel_id, b);
    proof {
        assert(dispatch_spec(
            cmd@,
            old(state)@,
            old(queue)@,
            final(state)@,
            final(queue)@,
            *sns,
            webview_ready,
            channel_id,
            b,
            r@,
        ));
    }
    r
}

/// An identity that is not authorized never reaches the command path:
/// whatever the message says, the state and the queue stay as they were,
/// and nothing is posted, fetched or replied; at most the raw text goes
/// to the timeline.
pub proof fn lemma_unauthorized_changes_nothing(
    raw: Seq<char>,
    s0: ListenerStateView,
    q0: Seq<PresentationView>,
    s1: ListenerStateView,
    q1: Seq<PresentationView>,
    sns: SnsInfo,
    webview_ready: bool,
    author_id: u64,
    channel_id: u64,
    rand_byte: u8,
    r: MessageOutcomeView,
)
    requires
        handle_message_spec(
            raw,
            s0,
            q0,
            s1,
            q1,
            sns,
            webview_ready,
            author_id,
            channel_id,
            false,
            rand_byte,
            r,
        ),
    ensures
        s1 == s0,
        q1 == q0,
        !(r is CommandResult),
{
}

/// Popping from an empty queue answers that nothing is queued, changes
/// neither the state nor the queue, and in particular asks for no
/// snapshot write.
pub proof fn lemma_pop_empty_writes_no_snapshot(
    s0: ListenerStateView,
    q0: Seq<PresentationView>,
    s1: ListenerStateView,
    q1: Seq<PresentationView>,
    webview_ready: bool,
    r: DispatchResultView,
)
    requires
        q0.len() == 0,
        dispatch_pres_spec(PresentationCommandView::Pop, s0, q0, s1, q1, webview_ready, r),
    ensures
        s1 == s0,
        q1 == q0,
        r is Done,
        r->Done_0.snapshot is None,
{
}

} // verus!
