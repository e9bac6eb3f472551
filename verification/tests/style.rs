use ifm::style::{EditOp, FillColor, Opacity, StrokeColor, StrokeDash, StrokeThickness, Style};

const POINTS: f32 = 1.327;

fn arrow_defs(pts: f32, ref_x: f32) -> String {
    format!(
        "\n                <defs id='marker-defs'>\n                    <marker\n                        id='tikz-arrow-{}'\n                        orient='auto-start-reverse'\n                        refX='{}' refY='0'\n                        markerWidth='0.911' markerHeight='1.69'\n                    >\n                        <g transform='scale({})'>\n                            <path\n                                style='fill:none;stroke:#000000;stroke-width:0.6;stroke-linecap:round;stroke-linejoin:round;stroke-miterlimit:10;stroke-dasharray:none;stroke-opacity:1'\n                                d='M -1.55415,2.0722 C -1.42464,1.29512 0,0.1295 0.38852,0 0,-0.1295 -1.42464,-1.29512 -1.55415,-2.0722'\n                                inkscape:connector-curvature='0'\n                            />\n                        </g>\n                    </marker>\n                </defs>\n            ",
        pts,
        ref_x,
        (2.4 * pts + 3.87) / (4.5 * pts)
    )
}

fn document(defs: &str, declaration: &str) -> String {
    format!(
        "<?xml version='1.0' encoding='UTF-8' standalone='no'?><svg>{}<inkscape:clipboard style='{}' /></svg>",
        defs, declaration
    )
}

#[test]
fn widths_are_multiples_of_a_point() {
    assert_eq!(StrokeThickness::NoStroke.pts(), 0.0f32.to_string());
    assert_eq!(StrokeThickness::Normal.pts(), (POINTS * 0.4).to_string());
    assert_eq!(StrokeThickness::Thick.pts(), (POINTS * 0.8).to_string());
    assert_eq!(StrokeThickness::VeryThick.pts(), (POINTS * 1.2).to_string());
}

#[test]
fn widths_as_written() {
    assert_eq!(StrokeThickness::NoStroke.pts_string(), "none");
    assert_eq!(StrokeThickness::Normal.pts_string(), "0.53080004");
    assert_eq!(StrokeThickness::Thick.pts_string(), "1.0616001");
    assert_eq!(StrokeThickness::VeryThick.pts_string(), "1.5924001");
}

#[test]
fn arrowheads_scale_with_the_stroke() {
    for (width, ref_x) in [
        (StrokeThickness::Normal, 0.45f32),
        (StrokeThickness::Thick, 0.4f32),
        (StrokeThickness::VeryThick, 0.2f32),
    ] {
        let pts: f32 = width.pts().parse().unwrap();
        assert_eq!(width.marker_ref_x(), ref_x.to_string());
        assert_eq!(width.marker_scale(), ((2.4 * pts + 3.87) / (4.5 * pts)).to_string());
    }
    assert_eq!(StrokeThickness::Normal.marker_scale(), "2.1535292");
    assert_eq!(StrokeThickness::Thick.marker_scale(), "1.3434312");
    assert_eq!(StrokeThickness::VeryThick.marker_scale(), "1.0733986");
}

#[test]
fn dash_patterns() {
    let dashed = format!("{},{}", POINTS * 3.0, POINTS * 3.0);
    assert_eq!(dashed, "3.981,3.981");
    for width in [StrokeThickness::Normal, StrokeThickness::Thick, StrokeThickness::VeryThick] {
        assert_eq!(StrokeDash::Solid.dasharray(width), "none");
        assert_eq!(StrokeDash::Dashed.dasharray(width), dashed);
        assert_eq!(
            StrokeDash::Dotted.dasharray(width),
            format!("{},{}", width.pts(), POINTS * 2.0)
        );
    }
    assert_eq!(StrokeDash::Dotted.dasharray(StrokeThickness::Thick), "1.0616001,2.654");
}

#[test]
fn fill_color_names() {
    assert_eq!(FillColor::NoFill.name(), "none");
    assert_eq!(FillColor::White.name(), "white");
    assert_eq!(FillColor::LightGray.name(), "lightgray");
    assert_eq!(FillColor::Black.name(), "black");
}

#[test]
fn opacity_is_at_most_one() {
    assert_eq!(Opacity::from_percent(0).map(|o| o.percent()), Some(0));
    assert_eq!(Opacity::from_percent(100).map(|o| o.percent()), Some(100));
    assert_eq!(Opacity::from_percent(101), None);
    assert_eq!(Opacity::from_percent(255), None);
    assert_eq!(Opacity::from_percent(100), Some(Opacity::opaque()));
    assert_eq!(Opacity::from_percent(12), Some(Opacity::tint()));
}

#[test]
fn opacity_is_written_as_the_shortest_decimal() {
    assert_eq!(Opacity::opaque().decimal(), "1");
    assert_eq!(Opacity::tint().decimal(), "0.12");
    assert_eq!(Opacity::from_percent(0).unwrap().decimal(), "0");
    assert_eq!(Opacity::from_percent(50).unwrap().decimal(), "0.5");
    assert_eq!(Opacity::from_percent(5).unwrap().decimal(), "0.05");
    assert_eq!(Opacity::from_percent(99).unwrap().decimal(), "0.99");
    for percent in 0..=100u8 {
        let number = percent as f32 / 100.0;
        assert_eq!(Opacity::from_percent(percent).unwrap().decimal(), number.to_string());
    }
}

#[test]
fn new_style_is_unset() {
    let style = Style::new();
    assert_eq!(style.fill_color, None);
    assert_eq!(style.fill_opacity, None);
    assert_eq!(style.stroke_width, None);
    assert_eq!(style.stroke_dash, None);
    assert_eq!(style.marker_start, None);
    assert_eq!(style.marker_end, None);
    assert!(!style.has_marker());
    assert!(!style.needs_stroke());
    assert_eq!(style.resolved_width(), None);
    assert_eq!(style.stroke_color(), None);
}

#[test]
fn empty_style_has_an_empty_declaration() {
    let mut style = Style::new();
    assert_eq!(style.to_string(), document("", ""));
    assert_eq!(style, Style::new());
}

#[test]
fn operations_write_their_own_category() {
    let mut style = Style::new();
    style.apply(EditOp::StrokeWidth(StrokeThickness::Thick));
    assert_eq!(style, Style { stroke_width: Some(StrokeThickness::Thick), ..Style::new() });
    style.apply(EditOp::StrokeDash(StrokeDash::Dotted));
    style.apply(EditOp::Fill(FillColor::Black, Opacity::tint()));
    style.apply(EditOp::MarkerStart);
    style.apply(EditOp::MarkerEnd);
    assert_eq!(
        style,
        Style {
            fill_color: Some(FillColor::Black),
            fill_opacity: Some(Opacity::tint()),
            stroke_width: Some(StrokeThickness::Thick),
            stroke_dash: Some(StrokeDash::Dotted),
            marker_start: Some(true),
            marker_end: Some(true),
        }
    );
    assert_eq!(EditOp::MarkerEnd.category(), ifm::style::Category::MarkerEnd);
    assert_eq!(
        EditOp::Fill(FillColor::White, Opacity::opaque()).category(),
        ifm::style::Category::Fill
    );
}

#[test]
fn later_operations_override_earlier_ones() {
    let mut style = Style::new();
    style.apply(EditOp::StrokeWidth(StrokeThickness::Normal));
    style.apply(EditOp::Fill(FillColor::White, Opacity::opaque()));
    style.apply(EditOp::StrokeWidth(StrokeThickness::VeryThick));
    style.apply(EditOp::Fill(FillColor::Black, Opacity::tint()));
    style.apply(EditOp::StrokeDash(StrokeDash::Dashed));
    style.apply(EditOp::StrokeDash(StrokeDash::Solid));
    assert_eq!(
        style.to_string(),
        document(
            "",
            "stroke:black;fill:black;fill-opacity:0.12;stroke-width:1.5924001;stroke-dasharray:none;"
        )
    );
}

#[test]
fn dash_alone_gets_a_normal_stroke() {
    let mut style = Style::new();
    style.apply(EditOp::StrokeDash(StrokeDash::Dashed));
    assert!(style.needs_stroke());
    assert_eq!(style.stroke_width, None);
    assert_eq!(style.resolved_width(), Some(StrokeThickness::Normal));
    assert_eq!(style.stroke_color(), Some(StrokeColor::Black));
    let text = style.to_string();
    assert_eq!(
        text,
        document("", "stroke:black;stroke-width:0.53080004;stroke-dasharray:3.981,3.981;")
    );
    assert!(text.contains("stroke-width:0.53080004;stroke-dasharray:3.981,3.981;"));
    assert!(!text.contains("fill"));
    assert_eq!(style.stroke_width, Some(StrokeThickness::Normal));
}

#[test]
fn marker_without_a_stroke_gets_a_normal_stroke() {
    let mut style = Style::new();
    style.apply(EditOp::Fill(FillColor::White, Opacity::opaque()));
    style.apply(EditOp::MarkerEnd);
    let text = style.to_string();
    assert!(text.contains(
        "fill:white;fill-opacity:1;stroke-width:0.53080004;marker-end:url(#tikz-arrow-0.53080004);marker-start:none;"
    ));
    assert_eq!(
        text,
        document(
            &arrow_defs(POINTS * 0.4, 0.45),
            "stroke:black;fill:white;fill-opacity:1;stroke-width:0.53080004;marker-end:url(#tikz-arrow-0.53080004);marker-start:none;"
        )
    );
}

#[test]
fn no_stroke_with_a_marker_resolves_to_normal() {
    let mut style = Style { stroke_width: Some(StrokeThickness::NoStroke), ..Style::new() };
    style.apply(EditOp::MarkerStart);
    assert_eq!(style.resolved_width(), Some(StrokeThickness::Normal));
    assert_eq!(
        style.to_string(),
        document(
            &arrow_defs(POINTS * 0.4, 0.45),
            "stroke:black;stroke-width:0.53080004;marker-end:none;marker-start:url(#tikz-arrow-0.53080004);"
        )
    );
}

#[test]
fn no_stroke_alone_is_written_as_none() {
    let mut style = Style { stroke_width: Some(StrokeThickness::NoStroke), ..Style::new() };
    assert_eq!(style.resolved_width(), Some(StrokeThickness::NoStroke));
    assert_eq!(style.stroke_color(), Some(StrokeColor::NoPaint));
    assert_eq!(style.to_string(), document("", "stroke:none;stroke-width:none;"));
}

#[test]
fn explicit_width_is_kept() {
    let mut style = Style::new();
    style.apply(EditOp::MarkerStart);
    style.apply(EditOp::MarkerEnd);
    style.apply(EditOp::StrokeDash(StrokeDash::Dotted));
    style.apply(EditOp::StrokeWidth(StrokeThickness::Thick));
    assert_eq!(
        style.to_string(),
        document(
            &arrow_defs(POINTS * 0.8, 0.4),
            "stroke:black;stroke-width:1.0616001;stroke-dasharray:1.0616001,2.654;marker-end:url(#tikz-arrow-1.0616001);marker-start:url(#tikz-arrow-1.0616001);"
        )
    );
    let mut heavy = Style::new();
    heavy.apply(EditOp::StrokeWidth(StrokeThickness::VeryThick));
    heavy.apply(EditOp::MarkerEnd);
    assert_eq!(
        heavy.to_string(),
        document(
            &arrow_defs(POINTS * 1.2, 0.2),
            "stroke:black;stroke-width:1.5924001;marker-end:url(#tikz-arrow-1.5924001);marker-start:none;"
        )
    );
}

#[test]
fn marker_switched_off_is_written_as_none() {
    let mut style = Style { marker_end: Some(false), ..Style::new() };
    assert!(!style.has_marker());
    assert_eq!(style.to_string(), document("", "marker-end:none;"));
}

#[test]
fn light_gray_fill() {
    let mut style = Style::new();
    style.apply(EditOp::Fill(FillColor::LightGray, Opacity::from_percent(50).unwrap()));
    assert_eq!(style.to_string(), document("", "fill:lightgray;fill-opacity:0.5;"));
    let mut hollow = Style::new();
    hollow.apply(EditOp::Fill(FillColor::NoFill, Opacity::opaque()));
    assert_eq!(hollow.to_string(), document("", "fill:none;fill-opacity:1;"));
}
