use vstd::prelude::*;
use crate::config::GlobalConfig;
use crate::text::{contains_str, has_infix};
use std::marker::PhantomData;

verus! {

/// Console output of crawl results of kind `T`.
pub struct Printer<T> {
    global_config: GlobalConfig,
    data: PhantomData<T>,
}

impl<T> Printer<T> {
    pub fn new(global_config: GlobalConfig) -> (r: Self)
        ensures
            r.config_view() == global_config,
    {
        Self { global_config, data: PhantomData }
    }

    pub closed spec fn config_view(&self) -> GlobalConfig {
        self.global_config
    }

    /// The preferences this printer follows.
    pub fn global_config(&self) -> (r: &GlobalConfig)
        ensures
            *r == self.config_view(),
    {
        &self.global_config
    }
}

/// Marker of the addresses a hosting service makes up for users who hide
/// their own.
pub const NOREPLY_MARKER: &'static str = "noreply.";

/// Whether `mail` is an address made up by the hosting service.
pub fn is_noreply(mail: &str) -> (r: bool)
    ensures
        r == has_infix(mail@, NOREPLY_MARKER@),
{
    contains_str(mail, NOREPLY_MARKER)
}

/// `s` in red on a terminal: the ANSI foreground code 31, then the reset.
pub open spec fn in_red(s: Seq<char>) -> Seq<char> {
    "\x1b[31m"@ + s + "\x1b[0m"@
}

/// `s` in green on a terminal: the ANSI foreground code 32, then the reset.
pub open spec fn in_green(s: Seq<char>) -> Seq<char> {
    "\x1b[32m"@ + s + "\x1b[0m"@
}

/// Relies on colored's `Colorize::red` and the `Display` of `ColoredString`:
/// the text unchanged where colouring is off (which the environment decides),
/// else the red code, the text and the reset code; a text without an escape
/// character holds no reset code to escape.
#[verifier::external_body]
fn paint_red(s: &str) -> (r: String)
    ensures
        !s@.contains('\x1b') ==> (r@ == s@ || r@ == in_red(s@)),
{
    colored::Colorize::red(s).to_string()
}

/// Relies on colored's `Colorize::green` and the `Display` of
/// `ColoredString`: the text unchanged where colouring is off (which the
/// environment decides), else the green code, the text and the reset code.
#[verifier::external_body]
fn paint_green(s: &str) -> (r: String)
    ensures
        !s@.contains('\x1b') ==> (r@ == s@ || r@ == in_green(s@)),
{
    colored::Colorize::green(s).to_string()
}

/// A mail address for the console: red where the service made it up, green
/// otherwise; plain where colouring is off.
pub fn format_mail(mail: &str) -> (r: String)
    ensures
        !mail@.contains('\x1b') ==> (r@ == mail@ || r@ == if has_infix(mail@, NOREPLY_MARKER@) {
            in_red(mail@)
        } else {
            in_green(mail@)
        }),
{
    if is_noreply(mail) {
        paint_red(mail)
    } else {
        paint_green(mail)
    }
}

} // verus!
