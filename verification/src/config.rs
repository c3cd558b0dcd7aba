//! Colours of the screen, as the escape sequences that switch them on.

use crate::text::decimal;
use vstd::prelude::*;

verus! {

/// A colour of the screen.
#[derive(Debug, Clone, Copy)]
pub enum Color {
    /// Red, green and blue.
    Rgb(u8, u8, u8),
}

/// The sequence that is written where colours are switched off for the
/// whole process: it names no colour.
pub open spec fn plain_code() -> Seq<char> {
    "\x1b[m"@
}

/// The sequence that sets the colour of the text; without a colour, the one
/// that sets it back to the terminal's own.
pub open spec fn foreground_code(colour: Option<Color>) -> Seq<char> {
    match colour {
        Some(Color::Rgb(r, g, b)) => "\x1b[38;2;"@ + decimal(r as nat) + ";"@ + decimal(g as nat)
            + ";"@ + decimal(b as nat) + "m"@,
        None => "\x1b[39m"@,
    }
}

/// The sequence that sets the colour behind the text; without a colour, the
/// one that sets it back to the terminal's own.
pub open spec fn background_code(colour: Option<Color>) -> Seq<char> {
    match colour {
        Some(Color::Rgb(r, g, b)) => "\x1b[48;2;"@ + decimal(r as nat) + ";"@ + decimal(g as nat)
            + ";"@ + decimal(b as nat) + "m"@,
        None => "\x1b[49m"@,
    }
}

/// Whether `code` is what sets the colour of the text to `colour`, or the
/// sequence written instead where colours are switched off.
pub open spec fn sets_foreground(code: Seq<char>, colour: Option<Color>) -> bool {
    code == foreground_code(colour) || code == plain_code()
}

/// Whether `code` is what sets the colour behind the text to `colour`, or
/// the sequence written instead where colours are switched off.
pub open spec fn sets_background(code: Seq<char>, colour: Option<Color>) -> bool {
    code == background_code(colour) || code == plain_code()
}

/// `crossterm::style::SetForegroundColor`, written out with `to_string`.
/// crossterm writes `ESC [`, the colour and `m`: `39` for a reset, `38;2;`
/// and the three channels in decimal, parted by `;`, for an RGB colour. It
/// leaves the colour out where `NO_COLOR` was set for the process when it
/// first wrote a colour, or colours were forced off since; so the contract
/// allows both.
#[verifier::external_body]
fn foreground(colour: Option<Color>) -> (code: String)
    ensures
        sets_foreground(code@, colour),
{
    let colour = match colour {
        Some(Color::Rgb(r, g, b)) => crossterm::style::Color::from((r, g, b)),
        None => crossterm::style::Color::Reset,
    };
    crossterm::style::SetForegroundColor(colour).to_string()
}

/// `crossterm::style::SetBackgroundColor`, written out with `to_string`.
/// crossterm writes `ESC [`, the colour and `m`: `49` for a reset, `48;2;`
/// and the three channels in decimal, parted by `;`, for an RGB colour. It
/// leaves the colour out where `NO_COLOR` was set for the process when it
/// first wrote a colour, or colours were forced off since; so the contract
/// allows both.
#[verifier::external_body]
fn background(colour: Option<Color>) -> (code: String)
    ensures
        sets_background(code@, colour),
{
    let colour = match colour {
        Some(Color::Rgb(r, g, b)) => crossterm::style::Color::from((r, g, b)),
        None => crossterm::style::Color::Reset,
    };
    crossterm::style::SetBackgroundColor(colour).to_string()
}

/// The escape sequences that the screen is painted with.
#[derive(Debug)]
pub struct Config {
    /// Text that was not attempted, and text after a coloured stretch.
    pub fg_color_default: String,
    /// Background after the status bar.
    pub bg_color_default: String,
    /// Text that was typed correctly.
    pub fg_color_match: String,
    /// Text that was typed wrongly.
    pub fg_color_mismatch: String,
    /// Text of the status bar.
    pub fg_color_status_bar: String,
    /// Background of the status bar.
    pub bg_color_status_bar: String,
}

impl Config {
    /// The colours that a configuration starts with.
    pub open spec fn is_default(&self) -> bool {
        &&& sets_foreground(self.fg_color_default@, None)
        &&& sets_background(self.bg_color_default@, None)
        &&& sets_foreground(self.fg_color_match@, Some(Color::Rgb(38, 161, 104)))
        &&& sets_foreground(self.fg_color_mismatch@, Some(Color::Rgb(216, 101, 99)))
        &&& sets_foreground(self.fg_color_status_bar@, Some(Color::Rgb(239, 239, 239)))
        &&& sets_background(self.bg_color_status_bar@, Some(Color::Rgb(63, 63, 63)))
    }
}

impl Default for Config {
    /// Green for what matches, red for what does not, a light text on a
    /// dark bar for the status, and the terminal's own colours for the rest.
    fn default() -> (config: Self)
        ensures
            config.is_default(),
    {
        Config {
            fg_color_default: foreground(None),
            bg_color_default: background(None),
            fg_color_match: foreground(Some(Color::Rgb(38, 161, 104))),
            fg_color_mismatch: foreground(Some(Color::Rgb(216, 101, 99))),
            fg_color_status_bar: foreground(Some(Color::Rgb(239, 239, 239))),
            bg_color_status_bar: background(Some(Color::Rgb(63, 63, 63))),
        }
    }
}

} // verus!
