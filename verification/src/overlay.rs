//! Events sent to the overlay process, and their serialized wire form:
//! one compact JSON document per event.

use vstd::prelude::*;

use crate::model::{Page, Presentation, PresentationView, Service, User, UserView};

verus! {

/// Mathematical view of a [`ScreenAction`].
#[verifier::ext_equal]
pub enum ScreenActionView {
    TimelineClear,
    TimelinePush { user: UserView, service: Service, content: Seq<char> },
    NotificationUpdate { text: Seq<char> },
    PresentationUpdate { presenter: UserView, title: Seq<char> },
    SwitchPage(Page),
    UpcomingPresentationsUpdate { pending: Seq<PresentationView> },
}

/// One state change pushed to the overlay.
#[derive(Debug)]
pub enum ScreenAction {
    /// Empty the timeline.
    TimelineClear,
    /// Append one chat message to the timeline.
    TimelinePush { user: User, service: Service, content: String },
    /// Replace the notification banner text.
    NotificationUpdate { text: String },
    /// Replace the presentation now on screen.
    PresentationUpdate { presenter: User, title: String },
    /// Switch between the talk screen and the waiting screen.
    SwitchPage(Page),
    /// Replace the list of upcoming presentations.
    UpcomingPresentationsUpdate { pending: Vec<Presentation> },
}

impl View for ScreenAction {
    type V = ScreenActionView;

    open spec fn view(&self) -> ScreenActionView {
        match self {
            ScreenAction::TimelineClear => ScreenActionView::TimelineClear,
            ScreenAction::TimelinePush { user, service, content } => ScreenActionView::TimelinePush {
                user: user@,
                service: *service,
                content: content@,
            },
            ScreenAction::NotificationUpdate { text } => ScreenActionView::NotificationUpdate {
                text: text@,
            },
            ScreenAction::PresentationUpdate { presenter, title } => ScreenActionView::PresentationUpdate {
                presenter: presenter@,
                title: title@,
            },
            ScreenAction::SwitchPage(p) => ScreenActionView::SwitchPage(*p),
            ScreenAction::UpcomingPresentationsUpdate { pending } => ScreenActionView::UpcomingPresentationsUpdate {
                pending: pending.deep_view(),
            },
        }
    }
}

impl DeepView for ScreenAction {
    type V = ScreenActionView;

    open spec fn deep_view(&self) -> ScreenActionView {
        self.view()
    }
}

/// The lowercase hexadecimal digit for `d`.
pub open spec fn spec_hex_digit(d: nat) -> char {
    if d == 0 { '0' }
    else if d == 1 { '1' }
    else if d == 2 { '2' }
    else if d == 3 { '3' }
    else if d == 4 { '4' }
    else if d == 5 { '5' }
    else if d == 6 { '6' }
    else if d == 7 { '7' }
    else if d == 8 { '8' }
    else if d == 9 { '9' }
    else if d == 10 { 'a' }
    else if d == 11 { 'b' }
    else if d == 12 { 'c' }
    else if d == 13 { 'd' }
    else if d == 14 { 'e' }
    else { 'f' }
}

/// How one character appears inside a JSON string literal.
pub open spec fn spec_esc_char(c: char) -> Seq<char> {
    if c == '"' {
        seq!['\\', '"']
    } else if c == '\\' {
        seq!['\\', '\\']
    } else if c == '\n' {
        seq!['\\', 'n']
    } else if c == '\r' {
        seq!['\\', 'r']
    } else if c == '\t' {
        seq!['\\', 't']
    } else if (c as u32) < 32 {
        seq!['\\', 'u', '0', '0', spec_hex_digit((c as u32 / 16) as nat), spec_hex_digit(
            (c as u32 % 16) as nat,
        )]
    } else {
        seq![c]
    }
}

/// A text with every character escaped for a JSON string literal.
pub open spec fn spec_escape(s: Seq<char>) -> Seq<char>
    decreases s.len(),
{
    if s.len() == 0 {
        Seq::empty()
    } else {
        spec_escape(s.take(s.len() - 1)) + spec_esc_char(s[s.len() - 1])
    }
}

/// A JSON string literal holding `s`.
pub open spec fn spec_json_str(s: Seq<char>) -> Seq<char> {
    seq!['"'] + spec_escape(s) + seq!['"']
}

/// A JSON string literal or `null`.
pub open spec fn spec_json_opt(o: Option<Seq<char>>) -> Seq<char> {
    match o {
        Some(s) => spec_json_str(s),
        None => "null"@,
    }
}

fn hex_digit_str(d: u32) -> (r: &'static str)
    requires
        d < 16,
    ensures
        r@ =~= seq![spec_hex_digit(d as nat)],
{
    let r: &'static str = if d == 0 { "0" }
    else if d == 1 { "1" }
    else if d == 2 { "2" }
    else if d == 3 { "3" }
    else if d == 4 { "4" }
    else if d == 5 { "5" }
    else if d == 6 { "6" }
    else if d == 7 { "7" }
    else if d == 8 { "8" }
    else if d == 9 { "9" }
    else if d == 10 { "a" }
    else if d == 11 { "b" }
    else if d == 12 { "c" }
    else if d == 13 { "d" }
    else if d == 14 { "e" }
    else { "f" };
    proof {
        reveal_strlit("0");
        reveal_strlit("1");
        reveal_strlit("2");
        reveal_strlit("3");
        reveal_strlit("4");
        reveal_strlit("5");
        reveal_strlit("6");
        reveal_strlit("7");
        reveal_strlit("8");
        reveal_strlit("9");
        reveal_strlit("a");
        reveal_strlit("b");
        reveal_strlit("c");
        reveal_strlit("d");
        reveal_strlit("e");
        reveal_strlit("f");
    }
    r
}

fn append_escaped(out: &mut String, s: &str)
    ensures
        final(out)@ =~= old(out)@ + spec_escape(s@),
{
    let len = s.unicode_len();
    let mut i: usize = 0;
    proof {
        assert(s@.take(0) =~= Seq::<char>::empty());
        assert(old(out)@ + spec_escape(s@.take(0)) =~= old(out)@);
    }
    while i < len
        invariant
            0 <= i <= len,
            len == s@.len(),
            out@ =~= old(out)@ + spec_escape(s@.take(i as int)),
        decreases len - i,
    {
        let c = s.get_char(i);
        proof {
            assert(s@.take(i + 1).take(i as int) =~= s@.take(i as int));
            assert(s@.take(i + 1)[i as int] == s@[i as int]);
            reveal_strlit("\\\"");
            reveal_strlit("\\\\");
            reveal_strlit("\\n");
            reveal_strlit("\\r");
            reveal_strlit("\\t");
            reveal_strlit("\\u00");
        }
        if c == '"' {
            out.append("\\\"");
            proof {
                assert("\\\""@ =~= spec_esc_char('"'));
            }
        } else if c == '\\' {
            out.append("\\\\");
            proof {
                assert("\\\\"@ =~= spec_esc_char('\\'));
            }
        } else if c == '\n' {
            out.append("\\n");
            proof {
                assert("\\n"@ =~= spec_esc_char('\n'));
            }
        } else if c == '\r' {
            out.append("\\r");
            proof {
                assert("\\r"@ =~= spec_esc_char('\r'));
            }
        } else if c == '\t' {
            out.append("\\t");
            proof {
                assert("\\t"@ =~= spec_esc_char('\t'));
            }
        } else if (c as u32) < 32 {
            let cv = c as u32;
            out.append("\\u00");
            out.append(hex_digit_str(cv / 16));
            out.append(hex_digit_str(cv % 16));
            proof {
                assert("\\u00"@ + seq![spec_hex_digit((cv / 16) as nat)] + seq![spec_hex_digit(
                    (cv % 16) as nat,
                )] =~= spec_esc_char(c));
            }
        } else {
            let one = s.substring_char(i, i + 1);
            out.append(one);
            proof {
                assert(one@ =~= spec_esc_char(c));
            }
        }
        i = i + 1;
    }
    proof {
        assert(s@.take(len as int) =~= s@);
    }
}

/// Writes `s` as a JSON string literal onto `out`.
fn append_json_str(out: &mut String, s: &str)
    ensures
        final(out)@ =~= old(out)@ + spec_json_str(s@),
{
    proof {
        reveal_strlit("\"");
    }
    out.append("\"");
    append_escaped(out, s);
    out.append("\"");
    proof {
        assert("\""@ =~= seq!['"']);
    }
}

fn append_json_opt(out: &mut String, o: &Option<String>)
    ensures
        final(out)@ =~= old(out)@ + spec_json_opt(
            match o {
                Some(s) => Some(s@),
                None => None,
            },
        ),
{
    match o {
        Some(s) => append_json_str(out, s.as_str()),
        None => out.append("null"),
    }
}

/// The JSON object for a user as timeline and presentation events carry
/// it.
pub open spec fn spec_user_json(u: UserView) -> Seq<char> {
    "{\"userIcon\":"@ + spec_json_opt(u.icon) + ",\"identifier\":"@ + spec_json_opt(u.ident)
        + ",\"name\":"@ + spec_json_str(u.name) + "}"@
}

fn append_user_json(out: &mut String, u: &User)
    ensures
        final(out)@ =~= old(out)@ + spec_user_json(u@),
{
    out.append("{\"userIcon\":");
    append_json_opt(out, &u.icon);
    out.append(",\"identifier\":");
    append_json_opt(out, &u.ident);
    out.append(",\"name\":");
    append_json_str(out, u.name.as_str());
    out.append("}");
}

/// The JSON name of a chat service.
pub open spec fn spec_service_json(s: Service) -> Seq<char> {
    match s {
        Service::Discord => "\"discord\""@,
        Service::Twitter => "\"twitter\""@,
        Service::Youtube => "\"youtube\""@,
    }
}

/// The JSON name of an overlay page.
pub open spec fn spec_page_json(p: Page) -> Seq<char> {
    match p {
        Page::LTScreen => "\"LTScreen\""@,
        Page::WaitingScreen => "\"WaitingScreen\""@,
    }
}

/// The JSON object for one queued presentation in the pending list.
pub open spec fn spec_pres_json(p: PresentationView) -> Seq<char> {
    "{\"presenter\":{\"icon\":"@ + spec_json_opt(p.presenter.icon) + ",\"ident\":"@ + spec_json_opt(
        p.presenter.ident,
    ) + ",\"name\":"@ + spec_json_str(p.presenter.name) + "},\"title\":"@ + spec_json_str(p.title)
        + "}"@
}

fn append_pres_json(out: &mut String, p: &Presentation)
    ensures
        final(out)@ =~= old(out)@ + spec_pres_json(p@),
{
    out.append("{\"presenter\":{\"icon\":");
    append_json_opt(out, &p.presenter.icon);
    out.append(",\"ident\":");
    append_json_opt(out, &p.presenter.ident);
    out.append(",\"name\":");
    append_json_str(out, p.presenter.name.as_str());
    out.append("},\"title\":");
    append_json_str(out, p.title.as_str());
    out.append("}");
}

/// The JSON array body (without brackets) for the first `n` pending
/// presentations, comma-separated.
pub open spec fn spec_pres_items(qs: Seq<PresentationView>, n: int) -> Seq<char>
    decreases n,
{
    if n <= 0 {
        Seq::empty()
    } else if n == 1 {
        spec_pres_json(qs[0])
    } else {
        spec_pres_items(qs, n - 1) + seq![','] + spec_pres_json(qs[n - 1])
    }
}

/// The JSON array of pending presentations.
pub open spec fn spec_pres_array(qs: Seq<PresentationView>) -> Seq<char> {
    seq!['['] + spec_pres_items(qs, qs.len() as int) + seq![']']
}

fn append_pres_array(out: &mut String, qs: &Vec<Presentation>)
    ensures
        final(out)@ =~= old(out)@ + spec_pres_array(qs.deep_view()),
{
    proof {
        reveal_strlit("[");
        reveal_strlit("]");
        reveal_strlit(",");
    }
    out.append("[");
    let n = qs.len();
    let mut i: usize = 0;
    while i < n
        invariant
            0 <= i <= n,
            n == qs.deep_view().len(),
            out@ =~= old(out)@ + seq!['['] + spec_pres_items(qs.deep_view(), i as int),
        decreases n - i,
    {
        let ghost dv = qs.deep_view();
        let ghost prev = out@;
        if i > 0 {
            out.append(",");
        }
        append_pres_json(out, &qs[i]);
        proof {
            reveal_strlit(",");
            assert(qs[i as int]@ == dv[i as int]);
            if i > 0 {
                assert(out@ =~= prev + ","@ + spec_pres_json(dv[i as int]));
                assert(","@ =~= seq![',']);
                assert(spec_pres_items(dv, i + 1) == spec_pres_items(dv, i as int) + seq![',']
                    + spec_pres_json(dv[i as int]));
            } else {
                assert(out@ =~= prev + spec_pres_json(dv[0]));
                assert(spec_pres_items(dv, 1) == spec_pres_json(dv[0]));
            }
            assert(out@ =~= old(out)@ + seq!['['] + spec_pres_items(dv, i + 1));
        }
        i = i + 1;
    }
    out.append("]");
}

/// The serialized overlay event: the tagged JSON document sent on the
/// wire.
pub open spec fn spec_action_json(a: ScreenActionView) -> Seq<char> {
    match a {
        ScreenActionView::TimelineClear => "{\"type\":\"timeline.flush\"}"@,
        ScreenActionView::TimelinePush { user, service, content } => "{\"type\":\"timeline.add\",\"args\":{\"new\":{\"user\":"@
            + spec_user_json(user) + ",\"service\":"@ + spec_service_json(service)
            + ",\"content\":"@ + spec_json_str(content) + "}}}"@,
        ScreenActionView::NotificationUpdate { text } => "{\"type\":\"notification.update\",\"args\":{\"new\":"@
            + spec_json_str(text) + "}}"@,
        ScreenActionView::PresentationUpdate { presenter, title } => "{\"type\":\"presentation.update\",\"args\":{\"new\":{\"presenter\":"@
            + spec_user_json(presenter) + ",\"title\":"@ + spec_json_str(title) + "}}}"@,
        ScreenActionView::SwitchPage(p) => "{\"type\":\"screen.update\",\"args\":{\"new\":"@
            + spec_page_json(p) + "}}"@,
        ScreenActionView::UpcomingPresentationsUpdate { pending } => "{\"type\":\"waiting.pending.update\",\"args\":{\"new\":"@
            + spec_pres_array(pending) + "}}"@,
    }
}

impl ScreenAction {
    /// Serializes the event for the overlay process.
    pub fn serialize(&self) -> (r: String)
        ensures
            r@ =~= spec_action_json(self@),
    {
        match self {
            ScreenAction::TimelineClear => String::from_str("{\"type\":\"timeline.flush\"}"),
            ScreenAction::TimelinePush { user, service, content } => {
                let mut out = String::from_str("{\"type\":\"timeline.add\",\"args\":{\"new\":{\"user\":");
                append_user_json(&mut out, user);
                out.append(",\"service\":");
                match service {
                    Service::Discord => out.append("\"discord\""),
                    Service::Twitter => out.append("\"twitter\""),
                    Service::Youtube => out.append("\"youtube\""),
                }
                out.append(",\"content\":");
                append_json_str(&mut out, content.as_str());
                out.append("}}}");
                out
            },
            ScreenAction::NotificationUpdate { text } => {
                let mut out = String::from_str("{\"type\":\"notification.update\",\"args\":{\"new\":");
                append_json_str(&mut out, text.as_str());
                out.append("}}");
                out
            },
            ScreenAction::PresentationUpdate { presenter, title } => {
                let mut out = String::from_str(
                    "{\"type\":\"presentation.update\",\"args\":{\"new\":{\"presenter\":",
                );
                append_user_json(&mut out, presenter);
                out.append(",\"title\":");
                append_json_str(&mut out, title.as_str());
                out.append("}}}");
                out
            },
            ScreenAction::SwitchPage(p) => {
                let mut out = String::from_str("{\"type\":\"screen.update\",\"args\":{\"new\":");
                match p {
                    Page::LTScreen => out.append("\"LTScreen\""),
                    Page::WaitingScreen => out.append("\"WaitingScreen\""),
                }
                out.append("}}");
                out
            },
            ScreenAction::UpcomingPresentationsUpdate { pending } => {
                let mut out = String::from_str(
                    "{\"type\":\"waiting.pending.update\",\"args\":{\"new\":",
                );
                append_pres_array(&mut out, pending);
                out.append("}}");
                out
            },
        }
    }
}

} // verus!
