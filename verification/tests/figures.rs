use ifm::figures::{dashed, figure_path, format_name, latex_template, place_in, template_path};

#[test]
fn spaces_become_dashes() {
    assert_eq!(dashed("loss curve of run 3"), "loss-curve-of-run-3");
    assert_eq!(dashed("  "), "--");
    assert_eq!(dashed("plain"), "plain");
    assert_eq!(dashed(""), "");
    assert_eq!(dashed("größe x"), "größe-x");
    assert_eq!(dashed("a b"), "a b".replace(" ", "-"));
}

#[test]
fn formatted_names_get_the_extension() {
    assert_eq!(format_name("my figure"), "my-figure.svg");
    assert_eq!(format_name(""), ".svg");
}

#[test]
fn names_are_placed_in_a_directory() {
    assert_eq!(place_in("figures", "a.svg".to_string()), "figures/a.svg");
    assert_eq!(place_in("", "a.svg".to_string()), "a.svg");
}

#[test]
fn new_figure_paths() {
    assert_eq!(figure_path("figures/my_figure.svg", false, ""), "figures/my_figure.svg");
    assert_eq!(figure_path("My Figure", false, ""), "My Figure");
    assert_eq!(figure_path("My Figure", true, ""), "my-figure.svg");
    assert_eq!(figure_path("My Figure", true, "figures"), "figures/my-figure.svg");
    assert_eq!(figure_path("My Figure.svg", false, "figures"), "figures/My Figure.svg");
    assert_eq!(figure_path("Über Größe", true, "figures"), "figures/über-größe.svg");
}

#[test]
fn latex_lines_for_a_figure() {
    assert_eq!(
        latex_template("figures/my-figure.svg"),
        Some(
            vec![
                "\\begin{marginfigure}",
                "    \\centering",
                "    \\incfig{figures/my-figure}",
                "    \\caption{}",
                "    \\label{fig:my-figure}",
                "\\end{marginfigure}"
            ]
            .join("\n")
        )
    );
    assert_eq!(latex_template("figures/my-figure.pdf"), None);
    assert_eq!(latex_template(""), None);
}

#[test]
fn template_lies_in_the_configuration_directory() {
    assert_eq!(template_path("/Users/me"), "/Users/me/.config/ifm/template.svg");
    assert_eq!(template_path("/Users/me/"), "/Users/me/.config/ifm/template.svg");
    assert_eq!(template_path(""), ".config/ifm/template.svg");
    for home in ["/Users/me", "/Users/me/", "", "/", "relative/home"] {
        let joined = std::path::Path::new(home).join(".config/ifm/template.svg");
        assert_eq!(Some(template_path(home).as_str()), joined.to_str());
    }
}
