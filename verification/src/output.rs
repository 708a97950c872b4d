//! Console message formatting: colors and emoji prefixes that degrade to
//! plain text when turned off.
use colored::Colorize;
use vstd::prelude::*;

use crate::text::{chars_to_string, extend_str, str_chars};

verus! {

/// Output configuration.
pub struct OutputConfig {
    /// Whether ANSI colors are used.
    pub colors: bool,
    /// Whether emoji prefixes are used (text markers like `[OK]` otherwise).
    pub emojis: bool,
}

impl Default for OutputConfig {
    /// Colors and emojis are on by default.
    fn default() -> (r: OutputConfig)
        ensures
            r.colors && r.emojis,
    {
        OutputConfig { colors: true, emojis: true }
    }
}

impl OutputConfig {
    /// Creates a new output config.
    pub fn new(colors: bool, emojis: bool) -> (r: OutputConfig)
        ensures
            r.colors == colors,
            r.emojis == emojis,
    {
        OutputConfig { colors, emojis }
    }
}

/// An emoji with the text shown in its place when emojis are off.
pub struct Emoji {
    /// The emoji.
    pub symbol: &'static str,
    /// The text used instead.
    pub fallback: &'static str,
}

/// The success marker.
pub fn emoji_success() -> (r: Emoji)
    ensures
        r.symbol@ == "✅"@,
        r.fallback@ == "[OK]"@,
{
    Emoji { symbol: "✅", fallback: "[OK]" }
}

/// The error marker.
pub fn emoji_error() -> (r: Emoji)
    ensures
        r.symbol@ == "❌"@,
        r.fallback@ == "[ERR]"@,
{
    Emoji { symbol: "❌", fallback: "[ERR]" }
}

/// The warning marker.
pub fn emoji_warning() -> (r: Emoji)
    ensures
        r.symbol@ == "⚠️ "@,
        r.fallback@ == "[WARN]"@,
{
    Emoji { symbol: "⚠️ ", fallback: "[WARN]" }
}

/// The statistics marker.
pub fn emoji_stats() -> (r: Emoji)
    ensures
        r.symbol@ == "📊"@,
        r.fallback@ == "[STATS]"@,
{
    Emoji { symbol: "📊", fallback: "[STATS]" }
}

/// The item marker.
pub fn emoji_item() -> (r: Emoji)
    ensures
        r.symbol@ == "📋"@,
        r.fallback@ == "[ITEM]"@,
{
    Emoji { symbol: "📋", fallback: "[ITEM]" }
}

/// Returns the emoji, or its text when emojis are off.
pub fn get_emoji(config: &OutputConfig, emoji: &Emoji) -> (r: &'static str)
    ensures
        r@ == if config.emojis {
            emoji.symbol@
        } else {
            emoji.fallback@
        },
{
    if config.emojis {
        emoji.symbol
    } else {
        emoji.fallback
    }
}

/// Color options for text styling.
#[derive(Debug, Clone, Copy, PartialEq, Eq, Structural)]
pub enum Color {
    /// The terminal's own color.
    Plain,
    Red,
    Green,
    Yellow,
    Cyan,
}

impl Default for Color {
    /// No color.
    fn default() -> (r: Color)
        ensures
            r == Color::Plain,
    {
        Color::Plain
    }
}

/// Style options for text styling.
#[derive(Debug, Clone, Copy, PartialEq, Eq, Structural)]
pub enum Style {
    /// No style.
    Plain,
    Bold,
    Dimmed,
}

impl Default for Style {
    /// No style.
    fn default() -> (r: Style)
        ensures
            r == Style::Plain,
    {
        Style::Plain
    }
}

/// The SGR code of a foreground color (empty for none).
pub open spec fn color_code(c: Color) -> Seq<char> {
    match c {
        Color::Plain => seq![],
        Color::Red => "31"@,
        Color::Green => "32"@,
        Color::Yellow => "33"@,
        Color::Cyan => "36"@,
    }
}

/// The SGR code of a style (empty for none).
pub open spec fn style_code(s: Style) -> Seq<char> {
    match s {
        Style::Plain => seq![],
        Style::Bold => "1"@,
        Style::Dimmed => "2"@,
    }
}

/// The escape sequence that turns on a color and a style: the style code,
/// then the color code, separated by `;`.
pub open spec fn sgr(c: Color, s: Style) -> Seq<char> {
    "\x1B["@ + style_code(s) + (if s != Style::Plain && c != Color::Plain {
        ";"@
    } else {
        seq![]
    }) + color_code(c) + "m"@
}

/// The escape sequence that resets colors and styles.
pub open spec fn reset_code() -> Seq<char> {
    "\x1B[0m"@
}

/// What painting `text` may give: the text itself when neither a color nor
/// a style is asked for; otherwise, for a text without escape characters,
/// the text itself (when the terminal settings turn colors off) or the
/// text between the escape sequences.
pub open spec fn painted(text: Seq<char>, c: Color, s: Style, out: Seq<char>) -> bool {
    &&& (c == Color::Plain && s == Style::Plain) ==> out == text
    &&& !text.contains('\x1B') ==> (out == text || out == sgr(c, s) + text + reset_code())
}

/// `colored`: the text with the color and style applied, as its
/// `ColoredString` displays. Whether escape sequences are written depends
/// on the environment (`NO_COLOR`, `CLICOLOR`, `CLICOLOR_FORCE`), so the
/// result is one of two texts; for a text that already holds escape
/// sequences the crate re-opens the style after each inner reset, which is
/// left unstated here.
#[verifier::external_body]
fn paint(text: &str, color: Color, style: Style) -> (r: String)
    ensures
        painted(text@, color, style, r@),
{
    let c = match color {
        Color::Red => text.red(),
        Color::Green => text.green(),
        Color::Yellow => text.yellow(),
        Color::Cyan => text.cyan(),
        Color::Plain => text.normal(),
    };
    match style {
        Style::Bold => c.bold().to_string(),
        Style::Dimmed => c.dimmed().to_string(),
        Style::Plain => c.to_string(),
    }
}

/// What `colorize` may give: the text unchanged when colors are off, a
/// painted text otherwise.
pub open spec fn colorized(config: OutputConfig, text: Seq<char>, c: Color, s: Style, out: Seq<char>) -> bool {
    if config.colors {
        painted(text, c, s, out)
    } else {
        out == text
    }
}

/// Returns text with the specified color and style applied if colors are
/// enabled.
pub fn colorize(config: &OutputConfig, text: &str, color: Color, style: Style) -> (r: String)
    ensures
        colorized(*config, text@, color, style, r@),
{
    if !config.colors {
        return text.to_owned();
    }
    paint(text, color, style)
}

/// What a message with a marker may read: the marker (the emoji, or its
/// text colorized like the message when emojis are off), a space, then the
/// message.
pub open spec fn marked(config: OutputConfig, symbol: Seq<char>, fallback: Seq<char>, c: Color, message: Seq<char>, out: Seq<char>) -> bool {
    exists|prefix: Seq<char>|
        out == prefix + " "@ + message && (if config.emojis {
            prefix == symbol
        } else {
            colorized(config, fallback, c, Style::Plain, prefix)
        })
}

/// Formats a message with the marker of `emoji`; when emojis are off the
/// text marker is colorized to match the message.
fn format_message(config: &OutputConfig, emoji: &Emoji, color: Color, message: &str) -> (r: String)
    ensures
        marked(*config, emoji.symbol@, emoji.fallback@, color, message@, r@),
{
    let prefix = get_emoji(config, emoji);
    let colored_prefix = if config.emojis {
        prefix.to_owned()
    } else {
        colorize(config, prefix, color, Style::Plain)
    };
    let mut out = str_chars(colored_prefix.as_str());
    extend_str(&mut out, " ");
    extend_str(&mut out, message);
    let r = chars_to_string(&out);
    assert(r@ == colored_prefix@ + " "@ + message@);
    r
}

/// What a formatted message may read: the marker, a space, then the
/// message colorized in `c`.
pub open spec fn formatted(config: OutputConfig, symbol: Seq<char>, fallback: Seq<char>, c: Color, message: Seq<char>, out: Seq<char>) -> bool {
    exists|m: Seq<char>| colorized(config, message, c, Style::Plain, m) && marked(config, symbol, fallback, c, m, out)
}

/// Formats a success message: green, after the success marker.
pub fn format_success(config: &OutputConfig, message: &str) -> (r: String)
    ensures
        formatted(*config, "✅"@, "[OK]"@, Color::Green, message@, r@),
{
    let msg = colorize(config, message, Color::Green, Style::Plain);
    let r = format_message(config, &emoji_success(), Color::Green, msg.as_str());
    assert(colorized(*config, message@, Color::Green, Style::Plain, msg@));
    r
}

/// Formats an error message: red, after the error marker.
pub fn format_error(config: &OutputConfig, message: &str) -> (r: String)
    ensures
        formatted(*config, "❌"@, "[ERR]"@, Color::Red, message@, r@),
{
    let msg = colorize(config, message, Color::Red, Style::Plain);
    let r = format_message(config, &emoji_error(), Color::Red, msg.as_str());
    assert(colorized(*config, message@, Color::Red, Style::Plain, msg@));
    r
}

/// Formats a warning message: yellow, after the warning marker.
pub fn format_warning(config: &OutputConfig, message: &str) -> (r: String)
    ensures
        formatted(*config, "⚠️ "@, "[WARN]"@, Color::Yellow, message@, r@),
{
    let msg = colorize(config, message, Color::Yellow, Style::Plain);
    let r = format_message(config, &emoji_warning(), Color::Yellow, msg.as_str());
    assert(colorized(*config, message@, Color::Yellow, Style::Plain, msg@));
    r
}

/// The branch drawn before a child in a tree: the last child closes it.
pub fn format_tree_branch(is_last: bool) -> (r: &'static str)
    ensures
        r@ == if is_last {
            "└─"@
        } else {
            "├─"@
        },
{
    if is_last {
        "└─"
    } else {
        "├─"
    }
}

} // verus!
