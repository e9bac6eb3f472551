use ifm::watch::{
    conversion, conversion_report, file_name_offset, file_stem, is_figure, output_path, react,
    scan_report, Action, Invocation, Outcome, WatchEvent, WatchEventMultiplexer,
};
use std::path::Path;

fn scanned(path: &str) -> WatchEvent {
    WatchEvent::Scanned(path.to_string())
}

fn modified(path: &str) -> WatchEvent {
    WatchEvent::Changed(path.to_string(), Outcome::Modified)
}

const PATHS: [&str; 16] = [
    "a.svg",
    "figures/diagram.svg",
    "/home/user/doc/figures/plots/loss curve.svg",
    "figures/übung.svg",
    "figures/archive.tar.svg",
    "figures.svg/inner.svg",
    "x/..svg",
    "figures/diagram.pdf",
    "figures/diagram.SVG",
    "figures/diagram.svgz",
    "figures/diagram",
    "figures/.svg",
    ".svg",
    "svg",
    "figures.svg/readme",
    "",
];

#[test]
fn figures_are_told_by_their_extension() {
    assert!(is_figure("a.svg"));
    assert!(is_figure("figures/diagram.svg"));
    assert!(is_figure("x/..svg"));
    assert!(!is_figure("figures/diagram.pdf"));
    assert!(!is_figure("figures/diagram.SVG"));
    assert!(!is_figure("figures/.svg"));
    assert!(!is_figure(".svg"));
    assert!(!is_figure(""));
    for path in PATHS {
        let extension = Path::new(path).extension().and_then(|e| e.to_str());
        assert_eq!(is_figure(path), extension == Some("svg"));
    }
}

#[test]
fn stems_are_file_names_without_extension() {
    assert_eq!(file_stem("figures/diagram.svg"), Some("diagram".to_string()));
    assert_eq!(file_stem("a.svg"), Some("a".to_string()));
    assert_eq!(file_stem("figures/archive.tar.svg"), Some("archive.tar".to_string()));
    assert_eq!(file_stem("figures/übung.svg"), Some("übung".to_string()));
    assert_eq!(file_stem("figures/diagram.pdf"), None);
    assert_eq!(file_stem("figures/.svg"), None);
    for path in PATHS {
        if is_figure(path) {
            let stem = Path::new(path).file_stem().and_then(|s| s.to_str());
            assert_eq!(file_stem(path).as_deref(), stem);
        } else {
            assert_eq!(file_stem(path), None);
        }
    }
}

#[test]
fn file_names_start_behind_the_last_separator() {
    assert_eq!(file_name_offset(""), 0);
    assert_eq!(file_name_offset("diagram.svg"), 0);
    assert_eq!(file_name_offset("figures/diagram.svg"), 8);
    assert_eq!(file_name_offset("a/b/c"), 4);
    assert_eq!(file_name_offset("a/b/"), 4);
    assert_eq!(file_name_offset("ü/b"), 2);
}

#[test]
fn output_is_the_sibling_pdf() {
    assert_eq!(output_path("figures/diagram.svg"), Some("figures/diagram.pdf".to_string()));
    assert_eq!(
        output_path("figures.svg/inner.svg"),
        Some("figures.svg/inner.pdf".to_string())
    );
    assert_eq!(output_path("figures/diagram.pdf"), None);
    assert_eq!(output_path("x/..svg"), Some("x/..pdf".to_string()));
    for path in PATHS {
        if path == "x/..svg" {
            continue;
        }
        if is_figure(path) {
            let sibling = Path::new(path).with_extension("pdf");
            assert_eq!(output_path(path).as_deref(), sibling.to_str());
        } else {
            assert_eq!(output_path(path), None);
        }
    }
}

#[test]
fn created_figure_is_converted() {
    let action = react(&modified("figures/diagram.svg"));
    assert_eq!(
        action,
        Action::Convert {
            source: "figures/diagram.svg".to_string(),
            output: "figures/diagram.pdf".to_string(),
            stem: "diagram".to_string(),
        }
    );
    assert_eq!(conversion_report("diagram", true), "saved as pdf: diagram");
    assert!(conversion_report("diagram", true).contains("saved"));
}

#[test]
fn scanned_figure_is_announced() {
    assert_eq!(
        react(&scanned("figures/diagram.svg")),
        Action::Announce { stem: "diagram".to_string() }
    );
    assert_eq!(scan_report("diagram"), "found figure: diagram");
}

#[test]
fn other_files_are_ignored() {
    for path in PATHS {
        if !is_figure(path) {
            assert_eq!(react(&scanned(path)), Action::Ignore);
            assert_eq!(react(&modified(path)), Action::Ignore);
        }
    }
}

#[test]
fn failed_notifications_are_passed_over() {
    for path in PATHS {
        let event = WatchEvent::Changed(path.to_string(), Outcome::Failed);
        assert_eq!(react(&event), Action::Ignore);
    }
}

#[test]
fn every_change_is_its_own_conversion() {
    let first = react(&modified("figures/diagram.svg"));
    let second = react(&modified("figures/diagram.svg"));
    assert_eq!(first, second);
    assert_ne!(first, Action::Ignore);
}

#[test]
fn converter_arguments() {
    assert_eq!(
        conversion("figures/diagram.svg", "/work/figures/diagram.pdf"),
        Invocation {
            program: "inkscape".to_string(),
            arguments: vec![
                "figures/diagram.svg".to_string(),
                "--export-area-page".to_string(),
                "--export-dpi=300".to_string(),
                "--export-type=pdf".to_string(),
                "--export-latex".to_string(),
                "--export-filename=/work/figures/diagram.pdf".to_string(),
            ],
        }
    );
}

#[test]
fn reports_name_the_figure() {
    assert_eq!(conversion_report("loss curve", true), "saved as pdf: loss curve");
    assert_eq!(conversion_report("loss curve", false), "error saving loss curve as pdf:");
    assert_eq!(scan_report(""), "found figure: ");
}

#[test]
fn multiplexer_hands_out_in_arrival_order() {
    let mut multiplexer = WatchEventMultiplexer::new();
    assert_eq!(multiplexer.len(), 0);
    assert_eq!(multiplexer.pop(), None);
    multiplexer.push(scanned("a.svg"));
    multiplexer.push(modified("c.svg"));
    multiplexer.push(scanned("b.svg"));
    assert_eq!(multiplexer.len(), 3);
    assert_eq!(multiplexer.pop(), Some(scanned("a.svg")));
    multiplexer.push(modified("a.svg"));
    assert_eq!(multiplexer.len(), 3);
    assert_eq!(multiplexer.pop(), Some(modified("c.svg")));
    assert_eq!(multiplexer.pop(), Some(scanned("b.svg")));
    assert_eq!(multiplexer.pop(), Some(modified("a.svg")));
    assert_eq!(multiplexer.pop(), None);
    assert_eq!(multiplexer.len(), 0);
}

#[test]
fn scan_is_reported_before_a_later_change() {
    let mut multiplexer = WatchEventMultiplexer::new();
    multiplexer.push(scanned("a.svg"));
    multiplexer.push(scanned("b.svg"));
    multiplexer.push(modified("a.svg"));
    let mut read = Vec::new();
    while let Some(event) = multiplexer.pop() {
        read.push(event);
    }
    assert_eq!(read, vec![scanned("a.svg"), scanned("b.svg"), modified("a.svg")]);
    let scan = read.iter().position(|e| *e == scanned("a.svg")).unwrap();
    let change = read.iter().position(|e| *e == modified("a.svg")).unwrap();
    assert!(scan < change);
}

#[test]
fn multiplexer_drops_nothing() {
    let mut multiplexer = WatchEventMultiplexer::new();
    for i in 0..1000 {
        multiplexer.push(modified(&format!("figures/{}.svg", i)));
    }
    assert_eq!(multiplexer.len(), 1000);
    for i in 0..1000 {
        assert_eq!(multiplexer.pop(), Some(modified(&format!("figures/{}.svg", i))));
    }
    assert_eq!(multiplexer.pop(), None);
}
