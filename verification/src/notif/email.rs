//! Sending mail.
use crate::item::{Item, ItemView};
use crate::text::owned;
use vstd::prelude::*;

verus! {

/// A mail, and how it is sent.
pub struct Email {
    pub server: String,
    pub login: String,
    pub password: String,
    pub from: String,
    pub to: String,
    pub subject: String,
    pub body: String,
}

/// A setting; empty where it is not set.
pub open spec fn setting(settings: ItemView, k: Seq<char>) -> Seq<char> {
    settings.str(k, Seq::empty())
}

/// Whether mail can be sent to somebody.
pub open spec fn can_send(settings: ItemView, to: Seq<char>) -> bool {
    &&& to.len() > 0
    &&& setting(settings, "smtp_server"@).len() > 0
    &&& setting(settings, "smtp_login"@).len() > 0
    &&& setting(settings, "smtp_password"@).len() > 0
    &&& setting(settings, "smtp_from"@).len() > 0
}

/// The mail to send, where the settings allow for any. Where anything is
/// missing, nothing is sent.
pub fn send_email(settings: &Item, to: &str, subject: &str, body: &str) -> (r: Option<Email>)
    ensures
        match r {
            Some(m) => {
                &&& can_send(settings@, to@)
                &&& m.server@ == setting(settings@, "smtp_server"@)
                &&& m.login@ == setting(settings@, "smtp_login"@)
                &&& m.password@ == setting(settings@, "smtp_password"@)
                &&& m.from@ == setting(settings@, "smtp_from"@)
                &&& m.to@ == to@
                &&& m.subject@ == subject@
                &&& m.body@ == body@
            },
            None => !can_send(settings@, to@),
        },
{
    proof {
        reveal_strlit("");
        assert(""@ =~= Seq::<char>::empty());
    }
    let server = settings.safe_str("smtp_server", "");
    let login = settings.safe_str("smtp_login", "");
    let password = settings.safe_str("smtp_password", "");
    let from = settings.safe_str("smtp_from", "");
    if to.is_empty() || server.as_str().is_empty() || login.as_str().is_empty()
        || password.as_str().is_empty() || from.as_str().is_empty() {
        return None;
    }
    Some(
        Email {
            server,
            login,
            password,
            from,
            to: owned(to),
            subject: owned(subject),
            body: owned(body),
        },
    )
}

/// Mail is sent to somebody where all four settings are filled in, and not otherwise.
pub proof fn what_mail_needs(settings: ItemView, to: Seq<char>, k: Seq<char>)
    ensures
        can_send(settings, to) ==> to.len() > 0 && settings.strs.contains_key("smtp_server"@)
            && settings.strs.contains_key("smtp_login"@) && settings.strs.contains_key(
            "smtp_password"@,
        ) && settings.strs.contains_key("smtp_from"@),
        to.len() > 0 && settings.str("smtp_server"@, Seq::empty()).len() > 0 && settings.str(
            "smtp_login"@,
            Seq::empty(),
        ).len() > 0 && settings.str("smtp_password"@, Seq::empty()).len() > 0 && settings.str(
            "smtp_from"@,
            Seq::empty(),
        ).len() > 0 <==> can_send(settings, to),
        settings.strs.contains_key(k) ==> setting(settings, k) == settings.strs[k],
        !settings.strs.contains_key(k) ==> setting(settings, k).len() == 0,
{
}

} // verus!
