//! This file contains information about the options that the Parser carries
//! around with it while parsing. Data is held in an `Options` object, and when
//! recursing, a new `Options` object can be created with the `.extend`
//! function.

use vstd::prelude::*;

verus! {

/// The size multipliers of the eleven sizes, in thousandths.
pub open spec fn size_multiplier(size: int) -> int {
    if size == 1 {
        500
    } else if size == 2 {
        600
    } else if size == 3 {
        700
    } else if size == 4 {
        800
    } else if size == 5 {
        900
    } else if size == 6 {
        1000
    } else if size == 7 {
        1200
    } else if size == 8 {
        1440
    } else if size == 9 {
        1728
    } else if size == 10 {
        2074
    } else {
        2488
    }
}

#[derive(Clone, Copy, Debug, PartialEq, Eq, Structural)]
pub enum FontWeight {
    TextBF,
    TextMD,
    /// No weight given.
    Unset,
}

#[derive(Clone, Copy, Debug, PartialEq, Eq, Structural)]
pub enum FontShape {
    TextIt,
    TextUp,
}

/// This is the main options class. It contains the current size, color, and
/// font.
///
/// Options objects should not be modified. To create a new Options with
/// different properties, call `extend`.
#[derive(Debug)]
pub struct Options {
    pub color: Option<String>,
    pub size: usize,
    pub text_size: usize,
    pub phantom: bool,
    /// A font family applies to a group of fonts (i.e. SansSerif), while a font
    /// represents a specific font (i.e. SansSerif Bold).
    pub font: String,
    pub font_family: String,
    pub font_weight: FontWeight,
    pub font_shape: FontShape,
    /// How much larger this size is than the base size, in thousandths.
    pub size_multiplier: u32,
    pub max_size: usize,
    pub min_rule_thickness: usize,
}

#[derive(Debug)]
pub struct OptionsData {
    pub color: Option<String>,
    pub size: usize,
    pub text_size: usize,
    pub phantom: bool,
    pub font: Option<String>,
    pub font_family: Option<String>,
    pub font_weight: Option<FontWeight>,
    pub font_shape: Option<FontShape>,
    pub max_size: usize,
    pub min_rule_thickness: usize,
}

/// The base size index.
pub const BASESIZE: usize = 6;

fn multiplier_of(size: usize) -> (m: u32)
    requires
        1 <= size <= 11,
    ensures
        m == size_multiplier(size as int),
{
    if size == 1 {
        500
    } else if size == 2 {
        600
    } else if size == 3 {
        700
    } else if size == 4 {
        800
    } else if size == 5 {
        900
    } else if size == 6 {
        1000
    } else if size == 7 {
        1200
    } else if size == 8 {
        1440
    } else if size == 9 {
        1728
    } else if size == 10 {
        2074
    } else {
        2488
    }
}

impl Options {
    /// The options that `data` describes. The size is one of the eleven
    /// sizes, from 1 to 11.
    pub fn new(data: OptionsData) -> (options: Self)
        requires
            1 <= data.size <= 11,
        ensures
            options.color == data.color,
            options.size == data.size,
            options.text_size == data.text_size,
            options.phantom == data.phantom,
            options.font@ == match data.font {
                Some(f) => f@,
                None => Seq::empty(),
            },
            options.font_family@ == match data.font_family {
                Some(f) => f@,
                None => Seq::empty(),
            },
            options.font_weight == match data.font_weight {
                Some(w) => w,
                None => FontWeight::Unset,
            },
            options.font_shape == match data.font_shape {
                Some(s) => s,
                None => FontShape::TextUp,
            },
            options.size_multiplier == size_multiplier(data.size as int),
            options.max_size == data.max_size,
            options.min_rule_thickness == data.min_rule_thickness,
    {
        let size_multiplier = multiplier_of(data.size);
        Options {
            color: data.color,
            size: data.size,
            text_size: data.text_size,
            phantom: data.phantom,
            font: match data.font {
                Some(f) => f,
                None => String::new(),
            },
            font_family: match data.font_family {
                Some(f) => f,
                None => String::new(),
            },
            font_weight: match data.font_weight {
                Some(w) => w,
                None => FontWeight::Unset,
            },
            font_shape: match data.font_shape {
                Some(s) => s,
                None => FontShape::TextUp,
            },
            size_multiplier,
            max_size: data.max_size,
            min_rule_thickness: data.min_rule_thickness,
        }
    }

    /// Returns a new options object with the same properties as "this". The
    /// limits of "extension" are copied to the new options object.
    pub fn extend(&self, extension: OptionsData) -> (options: Self)
        requires
            1 <= self.size <= 11,
        ensures
            options.color == self.color,
            options.size == self.size,
            options.text_size == self.text_size,
            options.phantom == self.phantom,
            options.font@ == self.font@,
            options.font_family@ == self.font_family@,
            options.font_weight == self.font_weight,
            options.font_shape == self.font_shape,
            options.size_multiplier == size_multiplier(self.size as int),
            options.max_size == extension.max_size,
            options.min_rule_thickness == extension.min_rule_thickness,
    {
        let mut data = extension;
        data.size = self.size;
        data.text_size = self.text_size;
        data.color = self.color.clone();
        data.phantom = self.phantom;
        data.font = Some(self.font.clone());
        data.font_family = Some(self.font_family.clone());
        data.font_weight = Some(self.font_weight);
        data.font_shape = Some(self.font_shape);
        Options::new(data)
    }
}

impl Default for OptionsData {
    fn default() -> (data: Self)
        ensures
            data.color is None,
            data.size == BASESIZE,
            data.text_size == BASESIZE,
            !data.phantom,
            data.font is None,
            data.font_family is None,
            data.font_weight is None,
            data.font_shape is None,
            data.max_size == 0,
            data.min_rule_thickness == 0,
    {
        OptionsData {
            color: None,
            size: BASESIZE,
            text_size: BASESIZE,
            phantom: false,
            font: None,
            font_family: None,
            font_weight: None,
            font_shape: None,
            max_size: 0,
            min_rule_thickness: 0,
        }
    }
}

} // verus!
