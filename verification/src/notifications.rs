//! The notices that tell the user of a change.
//!
//! The manager decides whether a notice is due and what it says. Showing it
//! is left to the caller.

use crate::text::{append, chars_of, string_of};
use crate::validation::{decimal_chars, decimal_text};
use vstd::prelude::*;

verus! {

/// A notice: a title and one line of text.
#[derive(Clone, Debug)]
pub struct Notification {
    pub title: String,
    pub text: String,
}

/// The mathematical value of a `Notification`.
pub struct NotificationView {
    pub title: Seq<char>,
    pub text: Seq<char>,
}

impl View for Notification {
    type V = NotificationView;

    open spec fn view(&self) -> NotificationView {
        NotificationView { title: self.title@, text: self.text@ }
    }
}

/// The view of an optional notice.
pub open spec fn notice_view(notice: Option<Notification>) -> Option<NotificationView> {
    match notice {
        Some(n) => Some(n@),
        None => None,
    }
}

/// The notice of a change of resolvers. An empty `secondary` is left out.
pub open spec fn dns_change_notice(
    provider_name: Seq<char>,
    primary: Seq<char>,
    secondary: Seq<char>,
) -> NotificationView {
    NotificationView {
        title: "DNS изменен"@,
        text: if secondary.len() == 0 {
            "Установлен: "@ + provider_name + " ("@ + primary + ")"@
        } else {
            "Установлен: "@ + provider_name + " ("@ + primary + ", "@ + secondary + ")"@
        },
    }
}

/// The notice of a switch that the scheduler made.
pub open spec fn scheduler_notice(provider_name: Seq<char>) -> NotificationView {
    NotificationView {
        title: "Планировщик DNS"@,
        text: "Автопереключение на: "@ + provider_name,
    }
}

/// `nanos` in tenths of a millisecond, rounded to the nearest; a value
/// halfway between two goes to the even one.
pub open spec fn rounded_tenths(nanos: nat) -> nat {
    let whole = nanos / 100_000;
    let rest = nanos % 100_000;
    if rest > 50_000 || (rest == 50_000 && whole % 2 == 1) {
        whole + 1
    } else {
        whole
    }
}

/// `nanos` in milliseconds with one digit after the point.
pub open spec fn millis_text(nanos: nat) -> Seq<char> {
    decimal_text(rounded_tenths(nanos) / 10) + seq!['.'] + decimal_text(rounded_tenths(nanos) % 10)
}

/// The notice of a speed test that is complete.
pub open spec fn speed_test_notice(fastest_provider: Seq<char>, avg_nanos: nat) -> NotificationView {
    NotificationView {
        title: "Тест скорости завершен"@,
        text: "Быстрейший: "@ + fastest_provider + " ("@ + millis_text(avg_nanos) + "ms)"@,
    }
}

/// Decides which notices are shown.
pub struct NotificationManager {
    silent_mode: bool,
}

impl NotificationManager {
    /// Whether notices are held back.
    pub closed spec fn silent(&self) -> bool {
        self.silent_mode
    }

    /// A manager that shows every notice.
    pub fn new() -> (out: NotificationManager)
        ensures
            !out.silent(),
    {
        NotificationManager { silent_mode: false }
    }

    /// Holds notices back from now on, or shows them again.
    pub fn set_silent_mode(&mut self, silent: bool)
        ensures
            final(self).silent() == silent,
    {
        self.silent_mode = silent;
    }

    /// Whether notices are held back.
    pub fn is_silent(&self) -> (r: bool)
        ensures
            r == self.silent(),
    {
        self.silent_mode
    }

    /// The notice of a change of resolvers, or none where notices are held
    /// back.
    pub fn send_dns_change_notification(
        &self,
        provider_name: &str,
        primary: &str,
        secondary: &str,
    ) -> (r: Option<Notification>)
        ensures
            notice_view(r) == if self.silent() {
                None
            } else {
                Some(dns_change_notice(provider_name@, primary@, secondary@))
            },
    {
        if self.silent_mode {
            return None;
        }
        let second = chars_of(secondary);
        let mut text = chars_of("Установлен: ");
        append(&mut text, &chars_of(provider_name));
        append(&mut text, &chars_of(" ("));
        append(&mut text, &chars_of(primary));
        if second.len() != 0 {
            append(&mut text, &chars_of(", "));
            append(&mut text, &second);
        }
        append(&mut text, &chars_of(")"));
        Some(Notification { title: "DNS изменен".to_owned(), text: string_of(&text) })
    }

    /// The notice of a switch that the scheduler made, or none where
    /// notices are held back.
    pub fn send_scheduler_notification(&self, provider_name: &str) -> (r: Option<Notification>)
        ensures
            notice_view(r) == if self.silent() {
                None
            } else {
                Some(scheduler_notice(provider_name@))
            },
    {
        if self.silent_mode {
            return None;
        }
        let mut text = chars_of("Автопереключение на: ");
        append(&mut text, &chars_of(provider_name));
        Some(Notification { title: "Планировщик DNS".to_owned(), text: string_of(&text) })
    }

    /// The notice of a speed test that is complete, or none where notices
    /// are held back. `avg_ping` is the fastest service's mean round trip in
    /// nanoseconds.
    pub fn send_speed_test_complete_notification(
        &self,
        fastest_provider: &str,
        avg_ping: u64,
    ) -> (r: Option<Notification>)
        ensures
            notice_view(r) == if self.silent() {
                None
            } else {
                Some(speed_test_notice(fastest_provider@, avg_ping as nat))
            },
    {
        if self.silent_mode {
            return None;
        }
        let mut text = chars_of("Быстрейший: ");
        append(&mut text, &chars_of(fastest_provider));
        append(&mut text, &chars_of(" ("));
        append(&mut text, &format_millis(avg_ping));
        append(&mut text, &chars_of("ms)"));
        Some(Notification { title: "Тест скорости завершен".to_owned(), text: string_of(&text) })
    }
}

/// `nanos` in milliseconds with one digit after the point.
pub fn format_millis(nanos: u64) -> (out: Vec<char>)
    ensures
        out@ == millis_text(nanos as nat),
{
    let whole: u64 = nanos / 100_000;
    let rest: u64 = nanos % 100_000;
    let tenths: u64 = if rest > 50_000 || (rest == 50_000 && whole % 2 == 1) {
        whole + 1
    } else {
        whole
    };
    let mut out = decimal_chars(tenths / 10);
    out.push('.');
    append(&mut out, &decimal_chars(tenths % 10));
    out
}

impl Default for NotificationManager {
    /// A manager that shows every notice.
    fn default() -> (out: NotificationManager)
        ensures
            !out.silent(),
    {
        NotificationManager::new()
    }
}

} // verus!
