//! The style model and its serialized form.
//!
//! A [`Style`] records, attribute by attribute, what has been chosen so far;
//! an attribute that was never chosen is unset and leaves no trace in the
//! fragment. Numbers appear in a fragment as decimal text, so the model keeps
//! them as integers and tables of text: an opacity in hundredths, a stroke
//! width as one of four categories.

use vstd::prelude::*;
use vstd::string::*;

use crate::text::{contains, lemma_contains_within, lemma_occurs_between};

verus! {

/// Fill colors the editor is offered.
#[derive(Clone, Copy, Debug, PartialEq, Eq, Structural)]
pub enum FillColor {
    NoFill,
    White,
    LightGray,
    Black,
}

impl FillColor {
    /// The color keyword written after `fill:`.
    pub open spec fn name_text(self) -> Seq<char> {
        match self {
            FillColor::NoFill => "none"@,
            FillColor::White => "white"@,
            FillColor::LightGray => "lightgray"@,
            FillColor::Black => "black"@,
        }
    }

    /// The color keyword.
    pub fn name(&self) -> (text: &'static str)
        ensures
            text@ == self.name_text(),
    {
        match self {
            FillColor::NoFill => "none",
            FillColor::White => "white",
            FillColor::LightGray => "lightgray",
            FillColor::Black => "black",
        }
    }
}

/// The text of one decimal digit; empty outside `0..=9`.
pub open spec fn digit_text(d: int) -> Seq<char> {
    if d == 0 {
        "0"@
    } else if d == 1 {
        "1"@
    } else if d == 2 {
        "2"@
    } else if d == 3 {
        "3"@
    } else if d == 4 {
        "4"@
    } else if d == 5 {
        "5"@
    } else if d == 6 {
        "6"@
    } else if d == 7 {
        "7"@
    } else if d == 8 {
        "8"@
    } else if d == 9 {
        "9"@
    } else {
        Seq::empty()
    }
}

fn digit_str(d: u8) -> (text: &'static str)
    requires
        d <= 9,
    ensures
        text@ == digit_text(d as int),
{
    match d {
        0 => "0",
        1 => "1",
        2 => "2",
        3 => "3",
        4 => "4",
        5 => "5",
        6 => "6",
        7 => "7",
        8 => "8",
        _ => "9",
    }
}

/// The decimal text of `hundredths / 100` with no trailing zero: `1`, `0.5`,
/// `0.12`.
pub open spec fn hundredths_text(hundredths: int) -> Seq<char> {
    if hundredths % 100 == 0 {
        digit_text(hundredths / 100)
    } else if hundredths % 10 == 0 {
        digit_text(hundredths / 100) + "."@ + digit_text(hundredths / 10 % 10)
    } else {
        digit_text(hundredths / 100) + "."@ + digit_text(hundredths / 10 % 10) + digit_text(
            hundredths % 10,
        )
    }
}

/// A fill opacity between 0 and 1, held in hundredths.
#[derive(Clone, Copy, Debug, PartialEq, Eq, Structural)]
pub struct Opacity {
    percent: u8,
}

impl Opacity {
    #[verifier::type_invariant]
    spec fn in_range(self) -> bool {
        self.percent <= 100
    }

    /// The opacity in hundredths.
    pub closed spec fn hundredths(self) -> int {
        self.percent as int
    }

    /// The opacity of `hundredths` hundredths, for `0 <= hundredths <= 100`.
    pub closed spec fn of_hundredths(hundredths: int) -> Opacity {
        Opacity { percent: hundredths as u8 }
    }

    /// The opacity of `percent` hundredths, if that is at most 1.
    pub fn from_percent(percent: u8) -> (opacity: Option<Opacity>)
        ensures
            opacity == if percent <= 100 {
                Some(Opacity::of_hundredths(percent as int))
            } else {
                None::<Opacity>
            },
            opacity matches Some(o) ==> o.hundredths() == percent,
    {
        if percent <= 100 {
            Some(Opacity { percent })
        } else {
            None
        }
    }

    /// Fully opaque: 1.
    pub fn opaque() -> (opacity: Opacity)
        ensures
            opacity == Opacity::of_hundredths(100),
            opacity.hundredths() == 100,
    {
        Opacity { percent: 100 }
    }

    /// The light tint that turns a black fill into grey: 0.12.
    pub fn tint() -> (opacity: Opacity)
        ensures
            opacity == Opacity::of_hundredths(12),
            opacity.hundredths() == 12,
    {
        Opacity { percent: 12 }
    }

    /// The opacity in hundredths, from 0 to 100.
    pub fn percent(&self) -> (percent: u8)
        ensures
            percent == self.hundredths(),
            percent <= 100,
    {
        proof {
            use_type_invariant(self);
        }
        self.percent
    }

    /// The number written after `fill-opacity:`.
    pub open spec fn decimal_text(self) -> Seq<char> {
        hundredths_text(self.hundredths())
    }

    /// The opacity as a decimal number.
    pub fn decimal(&self) -> (text: String)
        ensures
            text@ == self.decimal_text(),
    {
        let p: u8 = self.percent;
        let mut text = String::from_str(digit_str(p / 100));
        if p % 100 != 0 {
            text.append(".");
            text.append(digit_str(p / 10 % 10));
            if p % 10 != 0 {
                text.append(digit_str(p % 10));
            }
        }
        text
    }
}

/// Stroke width categories.
#[derive(Clone, Copy, Debug, PartialEq, Eq, Structural)]
pub enum StrokeThickness {
    NoStroke,
    Normal,
    Thick,
    VeryThick,
}

impl StrokeThickness {
    /// The width in user units, as a decimal number.
    pub open spec fn pts_text(self) -> Seq<char> {
        match self {
            StrokeThickness::NoStroke => "0"@,
            StrokeThickness::Normal => "0.53080004"@,
            StrokeThickness::Thick => "1.0616001"@,
            StrokeThickness::VeryThick => "1.5924001"@,
        }
    }

    /// The width as a decimal number.
    pub fn pts(&self) -> (text: &'static str)
        ensures
            text@ == self.pts_text(),
    {
        match self {
            StrokeThickness::NoStroke => "0",
            StrokeThickness::Normal => "0.53080004",
            StrokeThickness::Thick => "1.0616001",
            StrokeThickness::VeryThick => "1.5924001",
        }
    }

    /// What is written after `stroke-width:`: the number, or `none` where
    /// there is no stroke.
    pub open spec fn pts_string_text(self) -> Seq<char> {
        match self {
            StrokeThickness::NoStroke => "none"@,
            _ => self.pts_text(),
        }
    }

    /// The width as it is written into a fragment.
    pub fn pts_string(&self) -> (text: String)
        ensures
            text@ == self.pts_string_text(),
    {
        match self {
            StrokeThickness::NoStroke => String::from_str("none"),
            _ => String::from_str(self.pts()),
        }
    }

    /// Where along its axis an arrowhead of this weight is anchored.
    pub open spec fn marker_ref_x_text(self) -> Seq<char> {
        match self {
            StrokeThickness::NoStroke | StrokeThickness::Normal => "0.45"@,
            StrokeThickness::Thick => "0.4"@,
            StrokeThickness::VeryThick => "0.2"@,
        }
    }

    /// The anchor of an arrowhead of this weight.
    pub fn marker_ref_x(&self) -> (text: &'static str)
        ensures
            text@ == self.marker_ref_x_text(),
    {
        match self {
            StrokeThickness::NoStroke | StrokeThickness::Normal => "0.45",
            StrokeThickness::Thick => "0.4",
            StrokeThickness::VeryThick => "0.2",
        }
    }

    /// The factor that keeps an arrowhead in proportion to a stroke of this
    /// weight: `(2.4 w + 3.87) / (4.5 w)` for the width `w`.
    pub open spec fn marker_scale_text(self) -> Seq<char>
        recommends
            self != StrokeThickness::NoStroke,
    {
        match self {
            StrokeThickness::NoStroke | StrokeThickness::Normal => "2.1535292"@,
            StrokeThickness::Thick => "1.3434312"@,
            StrokeThickness::VeryThick => "1.0733986"@,
        }
    }

    /// The scale of an arrowhead of this weight.
    pub fn marker_scale(&self) -> (text: &'static str)
        ensures
            text@ == self.marker_scale_text(),
    {
        match self {
            StrokeThickness::NoStroke | StrokeThickness::Normal => "2.1535292",
            StrokeThickness::Thick => "1.3434312",
            StrokeThickness::VeryThick => "1.0733986",
        }
    }
}

/// Stroke dash patterns.
#[derive(Clone, Copy, Debug, PartialEq, Eq, Structural)]
pub enum StrokeDash {
    Solid,
    Dashed,
    Dotted,
}

impl StrokeDash {
    /// The dash pattern on a stroke of the given width: none for a solid
    /// line, equal dashes and gaps for a dashed one, and for a dotted one
    /// dots as long as the stroke is wide.
    pub open spec fn dasharray_text(self, width: StrokeThickness) -> Seq<char> {
        match self {
            StrokeDash::Solid => "none"@,
            StrokeDash::Dashed => "3.981,3.981"@,
            StrokeDash::Dotted => width.pts_text() + ",2.654"@,
        }
    }

    /// The dash pattern on a stroke of the given width.
    pub fn dasharray(&self, width: StrokeThickness) -> (text: String)
        ensures
            text@ == self.dasharray_text(width),
    {
        match self {
            StrokeDash::Solid => String::from_str("none"),
            StrokeDash::Dashed => String::from_str("3.981,3.981"),
            StrokeDash::Dotted => String::from_str(width.pts()).concat(",2.654"),
        }
    }
}

/// The paint of a stroke, which follows from its width.
#[derive(Clone, Copy, Debug, PartialEq, Eq, Structural)]
pub enum StrokeColor {
    NoPaint,
    Black,
}

/// One edit of a style. Each operation writes the attributes of one
/// category and leaves the others alone.
#[derive(Clone, Copy, Debug, PartialEq, Eq)]
pub enum EditOp {
    StrokeWidth(StrokeThickness),
    StrokeDash(StrokeDash),
    Fill(FillColor, Opacity),
    MarkerStart,
    MarkerEnd,
}

/// The groups of attributes that an operation can write.
#[derive(Clone, Copy, Debug, PartialEq, Eq, Structural)]
pub enum Category {
    StrokeWidth,
    StrokeDash,
    Fill,
    MarkerStart,
    MarkerEnd,
}

impl EditOp {
    /// The category that the operation writes.
    pub open spec fn category_spec(&self) -> Category {
        match self {
            EditOp::StrokeWidth(_) => Category::StrokeWidth,
            EditOp::StrokeDash(_) => Category::StrokeDash,
            EditOp::Fill(_, _) => Category::Fill,
            EditOp::MarkerStart => Category::MarkerStart,
            EditOp::MarkerEnd => Category::MarkerEnd,
        }
    }

    #[verifier::when_used_as_spec(category_spec)]
    pub fn category(&self) -> (category: Category)
        ensures
            category == self.category_spec(),
    {
        match self {
            EditOp::StrokeWidth(_) => Category::StrokeWidth,
            EditOp::StrokeDash(_) => Category::StrokeDash,
            EditOp::Fill(_, _) => Category::Fill,
            EditOp::MarkerStart => Category::MarkerStart,
            EditOp::MarkerEnd => Category::MarkerEnd,
        }
    }
}

/// A style in the making. Every attribute starts out unset. The color of
/// the stroke is not kept: it follows from the stroke width when the style
/// is written out.
#[derive(Clone, Copy, Debug, PartialEq, Eq)]
pub struct Style {
    pub fill_color: Option<FillColor>,
    pub fill_opacity: Option<Opacity>,
    pub stroke_width: Option<StrokeThickness>,
    pub stroke_dash: Option<StrokeDash>,
    pub marker_start: Option<bool>,
    pub marker_end: Option<bool>,
}

/// What every fragment starts with.
pub open spec fn xml_header() -> Seq<char> {
    "<?xml version='1.0' encoding='UTF-8' standalone='no'?><svg>"@
}

/// The property that names the paint of the stroke; nothing where no width
/// is known.
pub open spec fn stroke_property_text(width: Option<StrokeThickness>) -> Seq<char> {
    match width {
        None => Seq::empty(),
        Some(StrokeThickness::NoStroke) => "stroke:none;"@,
        Some(_) => "stroke:black;"@,
    }
}

/// The fill property; nothing for an unset color.
pub open spec fn fill_property_text(color: Option<FillColor>) -> Seq<char> {
    match color {
        None => Seq::empty(),
        Some(c) => "fill:"@ + c.name_text() + ";"@,
    }
}

/// The fill-opacity property; nothing for an unset opacity.
pub open spec fn fill_opacity_property_text(opacity: Option<Opacity>) -> Seq<char> {
    match opacity {
        None => Seq::empty(),
        Some(o) => "fill-opacity:"@ + o.decimal_text() + ";"@,
    }
}

/// The stroke-width property; nothing where no width is known.
pub open spec fn stroke_width_property_text(width: Option<StrokeThickness>) -> Seq<char> {
    match width {
        None => Seq::empty(),
        Some(w) => "stroke-width:"@ + w.pts_string_text() + ";"@,
    }
}

/// The dash property on a stroke of the drawn width; nothing for an unset
/// pattern.
pub open spec fn dash_property_text(dash: Option<StrokeDash>, drawn: StrokeThickness) -> Seq<
    char,
> {
    match dash {
        None => Seq::empty(),
        Some(d) => "stroke-dasharray:"@ + d.dasharray_text(drawn) + ";"@,
    }
}

/// One of the two marker properties. An active marker refers to the
/// arrowhead made for the drawn width. An inactive one is written as `none`
/// where it was switched off, and also where the other end carries a marker,
/// so that the direction of the arrow is never left open.
pub open spec fn marker_property_text(
    name: Seq<char>,
    flag: Option<bool>,
    any_marker: bool,
    drawn: StrokeThickness,
) -> Seq<char> {
    if flag == Some(true) {
        name + ":url(#tikz-arrow-"@ + drawn.pts_text() + ");"@
    } else if any_marker || flag == Some(false) {
        name + ":none;"@
    } else {
        Seq::empty()
    }
}

/// The block that defines the arrowhead for strokes of the given width. Its
/// shape is that of the default TikZ arrow tip.
pub open spec fn marker_defs_text(drawn: StrokeThickness) -> Seq<char> {
    "\n                <defs id='marker-defs'>\n                    <marker\n                        id='tikz-arrow-"@
        + drawn.pts_text()
        + "'\n                        orient='auto-start-reverse'\n                        refX='"@
        + drawn.marker_ref_x_text()
        + "' refY='0'\n                        markerWidth='0.911' markerHeight='1.69'\n                    >\n                        <g transform='scale("@
        + drawn.marker_scale_text()
        + ")'>\n                            <path\n                                style='fill:none;stroke:#000000;stroke-width:0.6;stroke-linecap:round;stroke-linejoin:round;stroke-miterlimit:10;stroke-dasharray:none;stroke-opacity:1'\n                                d='M -1.55415,2.0722 C -1.42464,1.29512 0,0.1295 0.38852,0 0,-0.1295 -1.42464,-1.29512 -1.55415,-2.0722'\n                                inkscape:connector-curvature='0'\n                            />\n                        </g>\n                    </marker>\n                </defs>\n            "@
}

/// The element that carries a style declaration to the editor.
pub open spec fn clipboard_element_text(declaration: Seq<char>) -> Seq<char> {
    "<inkscape:clipboard style='"@ + declaration + "' /></svg>"@
}

impl Style {
    /// The style with every attribute unset.
    pub open spec fn empty() -> Style {
        Style {
            fill_color: None,
            fill_opacity: None,
            stroke_width: None,
            stroke_dash: None,
            marker_start: None,
            marker_end: None,
        }
    }

    /// A style with every attribute unset.
    pub fn new() -> (style: Style)
        ensures
            style == Style::empty(),
    {
        Style {
            fill_color: None,
            fill_opacity: None,
            stroke_width: None,
            stroke_dash: None,
            marker_start: None,
            marker_end: None,
        }
    }

    /// The style after one operation.
    pub open spec fn applied(self, op: EditOp) -> Style {
        match op {
            EditOp::StrokeWidth(w) => Style { stroke_width: Some(w), ..self },
            EditOp::StrokeDash(d) => Style { stroke_dash: Some(d), ..self },
            EditOp::Fill(c, o) => Style { fill_color: Some(c), fill_opacity: Some(o), ..self },
            EditOp::MarkerStart => Style { marker_start: Some(true), ..self },
            EditOp::MarkerEnd => Style { marker_end: Some(true), ..self },
        }
    }

    /// The style after a run of operations, the first one applied first.
    pub open spec fn applied_all(self, ops: Seq<EditOp>) -> Style
        decreases ops.len(),
    {
        if ops.len() == 0 {
            self
        } else {
            self.applied_all(ops.drop_last()).applied(ops.last())
        }
    }

    /// This style with the attributes of every other category unset.
    pub open spec fn only(self, category: Category) -> Style {
        match category {
            Category::StrokeWidth => Style { stroke_width: self.stroke_width, ..Style::empty() },
            Category::StrokeDash => Style { stroke_dash: self.stroke_dash, ..Style::empty() },
            Category::Fill => Style {
                fill_color: self.fill_color,
                fill_opacity: self.fill_opacity,
                ..Style::empty()
            },
            Category::MarkerStart => Style { marker_start: self.marker_start, ..Style::empty() },
            Category::MarkerEnd => Style { marker_end: self.marker_end, ..Style::empty() },
        }
    }

    /// Applies one operation: the attributes of its category are
    /// overwritten, all others stay.
    pub fn apply(&mut self, op: EditOp)
        ensures
            *final(self) == old(self).applied(op),
    {
        match op {
            EditOp::StrokeWidth(w) => {
                self.stroke_width = Some(w);
            },
            EditOp::StrokeDash(d) => {
                self.stroke_dash = Some(d);
            },
            EditOp::Fill(c, o) => {
                self.fill_color = Some(c);
                self.fill_opacity = Some(o);
            },
            EditOp::MarkerStart => {
                self.marker_start = Some(true);
            },
            EditOp::MarkerEnd => {
                self.marker_end = Some(true);
            },
        }
    }

    /// Whether either end carries an arrowhead.
    pub open spec fn has_marker_spec(&self) -> bool {
        self.marker_start == Some(true) || self.marker_end == Some(true)
    }

    #[verifier::when_used_as_spec(has_marker_spec)]
    pub fn has_marker(&self) -> (b: bool)
        ensures
            b == self.has_marker_spec(),
    {
        let start = match self.marker_start {
            Some(on) => on,
            None => false,
        };
        let end = match self.marker_end {
            Some(on) => on,
            None => false,
        };
        start || end
    }

    /// Whether the style shows something that only a visible stroke can
    /// carry: a dash pattern or an arrowhead.
    pub open spec fn needs_stroke_spec(&self) -> bool {
        self.stroke_dash is Some || self.has_marker_spec()
    }

    #[verifier::when_used_as_spec(needs_stroke_spec)]
    pub fn needs_stroke(&self) -> (b: bool)
        ensures
            b == self.needs_stroke_spec(),
    {
        self.stroke_dash.is_some() || self.has_marker()
    }

    /// The stroke width that is written out. A style that needs a stroke and
    /// has none, because the width is unset or `NoStroke`, gets a normal one;
    /// any other style keeps what it has.
    pub open spec fn resolved_width_spec(&self) -> Option<StrokeThickness> {
        if self.needs_stroke_spec() && (self.stroke_width is None || self.stroke_width == Some(
            StrokeThickness::NoStroke,
        )) {
            Some(StrokeThickness::Normal)
        } else {
            self.stroke_width
        }
    }

    #[verifier::when_used_as_spec(resolved_width_spec)]
    pub fn resolved_width(&self) -> (width: Option<StrokeThickness>)
        ensures
            width == self.resolved_width_spec(),
    {
        let visible = match self.stroke_width {
            None => false,
            Some(StrokeThickness::NoStroke) => false,
            Some(_) => true,
        };
        if self.needs_stroke() && !visible {
            Some(StrokeThickness::Normal)
        } else {
            self.stroke_width
        }
    }

    /// The paint of the stroke: black where there is a stroke, no paint where
    /// the width says there is none, unset where no width is known.
    pub open spec fn stroke_color_spec(&self) -> Option<StrokeColor> {
        match self.resolved_width_spec() {
            None => None,
            Some(StrokeThickness::NoStroke) => Some(StrokeColor::NoPaint),
            Some(_) => Some(StrokeColor::Black),
        }
    }

    #[verifier::when_used_as_spec(stroke_color_spec)]
    pub fn stroke_color(&self) -> (color: Option<StrokeColor>)
        ensures
            color == self.stroke_color_spec(),
    {
        match self.resolved_width() {
            None => None,
            Some(StrokeThickness::NoStroke) => Some(StrokeColor::NoPaint),
            Some(_) => Some(StrokeColor::Black),
        }
    }

    /// The width that dash patterns and arrowheads are sized for.
    pub open spec fn drawn_width(self) -> StrokeThickness {
        match self.resolved_width_spec() {
            Some(w) => w,
            None => StrokeThickness::Normal,
        }
    }

    /// This style with its stroke width resolved.
    pub open spec fn resolved(self) -> Style {
        Style { stroke_width: self.resolved_width_spec(), ..self }
    }

    /// The style declaration: one `name:value;` for every attribute that is
    /// set or resolved, in a fixed order, and nothing for the others.
    pub open spec fn declaration_text(self) -> Seq<char> {
        stroke_property_text(self.resolved_width_spec()) + fill_property_text(self.fill_color)
            + fill_opacity_property_text(self.fill_opacity) + stroke_width_property_text(
            self.resolved_width_spec(),
        ) + dash_property_text(self.stroke_dash, self.drawn_width()) + marker_property_text(
            "marker-end"@,
            self.marker_end,
            self.has_marker_spec(),
            self.drawn_width(),
        ) + marker_property_text(
            "marker-start"@,
            self.marker_start,
            self.has_marker_spec(),
            self.drawn_width(),
        )
    }

    /// The whole fragment: a document that wraps the declaration, with the
    /// arrowhead's definition in front of it where a marker is active.
    pub open spec fn fragment_text(self) -> Seq<char> {
        if self.has_marker_spec() {
            xml_header() + marker_defs_text(self.drawn_width()) + clipboard_element_text(
                self.declaration_text(),
            )
        } else {
            xml_header() + clipboard_element_text(self.declaration_text())
        }
    }

    /// Serializes the style. The stroke width is resolved on the way and
    /// stays resolved in the style.
    pub fn to_string(&mut self) -> (text: String)
        ensures
            *final(self) == old(self).resolved(),
            text@ == old(self).fragment_text(),
    {
        let width = self.resolved_width();
        let any_marker = self.has_marker();
        let drawn = match width {
            Some(w) => w,
            None => StrokeThickness::Normal,
        };
        self.stroke_width = width;

        let mut declaration = stroke_property(width);
        declaration.append(fill_property(self.fill_color).as_str());
        declaration.append(fill_opacity_property(self.fill_opacity).as_str());
        declaration.append(stroke_width_property(width).as_str());
        declaration.append(dash_property(self.stroke_dash, drawn).as_str());
        declaration.append(marker_property("marker-end", self.marker_end, any_marker, drawn).as_str());
        declaration.append(
            marker_property("marker-start", self.marker_start, any_marker, drawn).as_str(),
        );

        let mut text = String::from_str("<?xml version='1.0' encoding='UTF-8' standalone='no'?><svg>");
        if any_marker {
            text.append(marker_defs(drawn).as_str());
        }
        text.append(clipboard_element(declaration.as_str()).as_str());
        text
    }
}

/// A dash pattern or an arrowhead implies a visible stroke: a style that
/// needs a stroke is written out with a width, and never with `NoStroke`.
pub proof fn lemma_needed_stroke_is_visible(style: Style)
    requires
        style.needs_stroke_spec(),
    ensures
        style.resolved_width_spec() == Some(style.drawn_width()),
        style.drawn_width() != StrokeThickness::NoStroke,
        style.stroke_color_spec() == Some(StrokeColor::Black),
{
}

/// Resolving the stroke width changes nothing in what is written out, and
/// resolving twice is resolving once.
pub proof fn lemma_resolved_style_is_written_alike(style: Style)
    ensures
        style.resolved().fragment_text() == style.fragment_text(),
        style.resolved().resolved() == style.resolved(),
{
}

/// An empty style declares nothing: its fragment is the bare document
/// around an empty declaration.
pub proof fn lemma_empty_style_declares_nothing()
    ensures
        Style::empty().declaration_text() == Seq::<char>::empty(),
        Style::empty().fragment_text() == xml_header() + clipboard_element_text(Seq::empty()),
{
    assert(Style::empty().declaration_text() =~= Seq::<char>::empty());
}

/// Within a run of operations the last one of a category decides: the
/// attributes of that category are what this operation writes, whatever
/// came before it.
pub proof fn lemma_last_operation_wins(start: Style, ops: Seq<EditOp>, i: int)
    requires
        0 <= i < ops.len(),
        forall|j: int| i < j < ops.len() ==> ops[j].category_spec() != ops[i].category_spec(),
    ensures
        start.applied_all(ops).only(ops[i].category_spec()) == Style::empty().applied(ops[i]).only(
            ops[i].category_spec(),
        ),
    decreases ops.len(),
{
    if i < ops.len() - 1 {
        lemma_last_operation_wins(start, ops.drop_last(), i);
    }
}

/// A category that no operation of a run names keeps what it had before.
pub proof fn lemma_untouched_category_is_kept(start: Style, ops: Seq<EditOp>, category: Category)
    requires
        forall|j: int| 0 <= j < ops.len() ==> ops[j].category_spec() != category,
    ensures
        start.applied_all(ops).only(category) == start.only(category),
    decreases ops.len(),
{
    if ops.len() > 0 {
        lemma_untouched_category_is_kept(start, ops.drop_last(), category);
    }
}

/// A style that needs a stroke still needs one after any further
/// operations: no operation takes a dash pattern or an arrowhead away.
pub proof fn lemma_need_for_stroke_is_kept(start: Style, ops: Seq<EditOp>)
    requires
        start.needs_stroke_spec(),
    ensures
        start.applied_all(ops).needs_stroke_spec(),
    decreases ops.len(),
{
    if ops.len() > 0 {
        lemma_need_for_stroke_is_kept(start, ops.drop_last());
    }
}

/// Whether an operation asks for something that only a visible stroke can
/// carry.
pub open spec fn asks_for_stroke(op: EditOp) -> bool {
    op is StrokeDash || op is MarkerStart || op is MarkerEnd
}

/// A session that applies a dash or a marker operation and never sets the
/// stroke width is written out with a normal stroke: the width resolves to
/// `Normal`, and the fragment holds the stroke-width property of a normal
/// stroke.
pub proof fn lemma_stroke_resolves_to_normal(ops: Seq<EditOp>)
    requires
        exists|i: int| 0 <= i < ops.len() && asks_for_stroke(#[trigger] ops[i]),
        forall|i: int| 0 <= i < ops.len() ==> !(#[trigger] ops[i] is StrokeWidth),
    ensures
        Style::empty().applied_all(ops).resolved_width_spec() == Some(StrokeThickness::Normal),
        contains(
            Style::empty().applied_all(ops).fragment_text(),
            stroke_width_property_text(Some(StrokeThickness::Normal)),
        ),
{
    let style = Style::empty().applied_all(ops);
    let i = choose|i: int| 0 <= i < ops.len() && asks_for_stroke(#[trigger] ops[i]);
    let upto = ops.take(i + 1);
    assert(upto.drop_last() =~= ops.take(i));
    assert(upto.last() == ops[i]);
    assert(Style::empty().applied_all(upto).needs_stroke_spec());
    lemma_applied_all_splits(Style::empty(), upto, ops.skip(i + 1));
    assert(upto + ops.skip(i + 1) =~= ops);
    lemma_need_for_stroke_is_kept(Style::empty().applied_all(upto), ops.skip(i + 1));
    assert forall|j: int| 0 <= j < ops.len() implies ops[j].category_spec()
        != Category::StrokeWidth by {
        assert(!(ops[j] is StrokeWidth));
    }
    lemma_untouched_category_is_kept(Style::empty(), ops, Category::StrokeWidth);
    assert(style.only(Category::StrokeWidth).stroke_width == style.stroke_width);
    assert(style.stroke_width is None);
    lemma_fragment_holds_stroke_width(style);
}

/// Applying a run in two parts is applying the whole.
pub proof fn lemma_applied_all_splits(start: Style, first: Seq<EditOp>, second: Seq<EditOp>)
    ensures
        start.applied_all(first + second) == start.applied_all(first).applied_all(second),
    decreases second.len(),
{
    if second.len() == 0 {
        assert(first + second =~= first);
    } else {
        lemma_applied_all_splits(start, first, second.drop_last());
        assert((first + second).drop_last() =~= first + second.drop_last());
        assert((first + second).last() == second.last());
    }
}

/// The fragment of a style holds its stroke-width property.
pub proof fn lemma_fragment_holds_stroke_width(style: Style)
    ensures
        contains(style.fragment_text(), stroke_width_property_text(style.resolved_width_spec())),
{
    let width = stroke_width_property_text(style.resolved_width_spec());
    let before = stroke_property_text(style.resolved_width_spec()) + fill_property_text(
        style.fill_color,
    ) + fill_opacity_property_text(style.fill_opacity);
    let after = dash_property_text(style.stroke_dash, style.drawn_width()) + marker_property_text(
        "marker-end"@,
        style.marker_end,
        style.has_marker_spec(),
        style.drawn_width(),
    ) + marker_property_text(
        "marker-start"@,
        style.marker_start,
        style.has_marker_spec(),
        style.drawn_width(),
    );
    let declaration = style.declaration_text();
    assert(declaration =~= before + width + after);
    lemma_occurs_between(before, width, after);
    lemma_contains_within("<inkscape:clipboard style='"@, declaration, "' /></svg>"@, width);
    let element = clipboard_element_text(declaration);
    let front = if style.has_marker_spec() {
        xml_header() + marker_defs_text(style.drawn_width())
    } else {
        xml_header()
    };
    lemma_contains_within(front, element, Seq::empty(), width);
    assert(front + element + Seq::<char>::empty() =~= style.fragment_text());
}

fn stroke_property(width: Option<StrokeThickness>) -> (text: String)
    ensures
        text@ == stroke_property_text(width),
{
    match width {
        None => String::new(),
        Some(StrokeThickness::NoStroke) => String::from_str("stroke:none;"),
        Some(_) => String::from_str("stroke:black;"),
    }
}

fn fill_property(color: Option<FillColor>) -> (text: String)
    ensures
        text@ == fill_property_text(color),
{
    match color {
        None => String::new(),
        Some(c) => String::from_str("fill:").concat(c.name()).concat(";"),
    }
}

fn fill_opacity_property(opacity: Option<Opacity>) -> (text: String)
    ensures
        text@ == fill_opacity_property_text(opacity),
{
    match opacity {
        None => String::new(),
        Some(o) => String::from_str("fill-opacity:").concat(o.decimal().as_str()).concat(";"),
    }
}

fn stroke_width_property(width: Option<StrokeThickness>) -> (text: String)
    ensures
        text@ == stroke_width_property_text(width),
{
    match width {
        None => String::new(),
        Some(w) => String::from_str("stroke-width:").concat(w.pts_string().as_str()).concat(";"),
    }
}

fn dash_property(dash: Option<StrokeDash>, drawn: StrokeThickness) -> (text: String)
    ensures
        text@ == dash_property_text(dash, drawn),
{
    match dash {
        None => String::new(),
        Some(d) => String::from_str("stroke-dasharray:").concat(d.dasharray(drawn).as_str()).concat(
            ";",
        ),
    }
}

fn marker_property(name: &str, flag: Option<bool>, any_marker: bool, drawn: StrokeThickness) -> (text:
    String)
    ensures
        text@ == marker_property_text(name@, flag, any_marker, drawn),
{
    match flag {
        Some(true) => String::from_str(name).concat(":url(#tikz-arrow-").concat(drawn.pts()).concat(
            ");",
        ),
        Some(false) => String::from_str(name).concat(":none;"),
        None => {
            if any_marker {
                String::from_str(name).concat(":none;")
            } else {
                String::new()
            }
        },
    }
}

fn marker_defs(drawn: StrokeThickness) -> (text: String)
    ensures
        text@ == marker_defs_text(drawn),
{
    String::from_str(
        "\n                <defs id='marker-defs'>\n                    <marker\n                        id='tikz-arrow-",
    ).concat(drawn.pts()).concat(
        "'\n                        orient='auto-start-reverse'\n                        refX='",
    ).concat(drawn.marker_ref_x()).concat(
        "' refY='0'\n                        markerWidth='0.911' markerHeight='1.69'\n                    >\n                        <g transform='scale(",
    ).concat(drawn.marker_scale()).concat(
        ")'>\n                            <path\n                                style='fill:none;stroke:#000000;stroke-width:0.6;stroke-linecap:round;stroke-linejoin:round;stroke-miterlimit:10;stroke-dasharray:none;stroke-opacity:1'\n                                d='M -1.55415,2.0722 C -1.42464,1.29512 0,0.1295 0.38852,0 0,-0.1295 -1.42464,-1.29512 -1.55415,-2.0722'\n                                inkscape:connector-curvature='0'\n                            />\n                        </g>\n                    </marker>\n                </defs>\n            ",
    )
}

fn clipboard_element(declaration: &str) -> (text: String)
    ensures
        text@ == clipboard_element_text(declaration@),
{
    String::from_str("<inkscape:clipboard style='").concat(declaration).concat("' /></svg>")
}

} // verus!
