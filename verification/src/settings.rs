//! The settings that a caller passes in, with their defaults.

use vstd::prelude::*;

verus! {

/// The markup language of the output.
#[derive(Clone, Copy, Debug, PartialEq, Eq, Structural)]
pub enum OutputFormat {
    HtmlAndMathml,
    Html,
    Mathml,
}

/// Custom macros: each name with its expansion text. Where a name occurs
/// twice, the later entry counts.
pub type MacroMap = Vec<(String, String)>;

#[derive(Debug)]
pub struct Settings {
    /// Render math in display mode, which puts the math in display style
    /// (so \int and \sum are large, for example), and centers the math on
    /// the page on its own line.
    pub display_mode: bool,
    /// Determines the markup language of the output.
    pub output: OutputFormat,
    /// Render display math in leqno style (left-justified tags).
    pub leqno: bool,
    /// Render display math flush left.
    pub fleqn: bool,
    /// Fail on an error in the input, in place of rendering the error.
    pub throw_on_error: bool,
    /// A color string given in the format '#rgb' or '#rrggbb'. This option
    /// determines the color of rendered errors.
    pub error_color: String,
    /// Custom macros.
    pub macros: MacroMap,
    /// Specifies a minimum thickness, in thousandths of an em, for fraction
    /// lines, \sqrt top lines, {array} vertical lines, \hline, \hdashline,
    /// \underline, \overline, and the borders of \fbox, \boxed, and
    /// \fcolorbox.
    pub min_rule_thickness: usize,
    /// Makes \color behave like LaTeX's 2-argument \textcolor, instead of
    /// LaTeX's one-argument \color mode change.
    pub color_is_text_color: bool,
    /// Turn on strict / LaTeX faithfulness mode.
    pub strict: bool,
    /// Trust the input, enabling all HTML features such as \url.
    pub trust: bool,
    /// If set, all user-specified sizes, e.g. in \rule{500em}{500em}, will
    /// be capped to this many thousandths of an em. Otherwise, elements and
    /// spaces can be arbitrarily large.
    pub max_size: Option<usize>,
    /// Limit the number of macro expansions to the specified number, to
    /// prevent e.g. infinite macro loops.
    pub max_expand: usize,
    /// Define macros in the namespace's base layer, in place of a group that
    /// ends with the expression.
    pub global_group: bool,
}

impl Default for Settings {
    fn default() -> (settings: Self)
        ensures
            !settings.display_mode,
            settings.output == OutputFormat::Html,
            !settings.leqno,
            !settings.fleqn,
            settings.throw_on_error,
            settings.error_color@ == "#cc0000"@,
            settings.macros@.len() == 0,
            settings.min_rule_thickness == 0,
            settings.max_size is None,
            !settings.color_is_text_color,
            !settings.strict,
            settings.trust,
            settings.max_expand == 1000,
            !settings.global_group,
    {
        Settings {
            display_mode: false,
            output: OutputFormat::Html,
            leqno: false,
            fleqn: false,
            throw_on_error: true,
            error_color: String::from_str("#cc0000"),
            macros: Vec::new(),
            min_rule_thickness: 0,
            color_is_text_color: false,
            strict: false,
            trust: true,
            max_size: None,
            max_expand: 1000,
            global_group: false,
        }
    }
}

} // verus!
