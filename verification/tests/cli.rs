use deltav::cli::{format_iso_week, parse_iso_week, IsoWeekError, OutputFormat};

#[test]
fn test_parse_iso_week() {
    let (year, week) = parse_iso_week("2026-W02").unwrap();
    assert_eq!(year, 2026);
    assert_eq!(week, 2);
}

#[test]
fn test_parse_iso_week_single_digit() {
    let (year, week) = parse_iso_week("2026-W2").unwrap();
    assert_eq!(year, 2026);
    assert_eq!(week, 2);
}

#[test]
fn test_parse_iso_week_invalid() {
    assert!(parse_iso_week("2026-02").is_err());
    assert!(parse_iso_week("invalid").is_err());
    assert!(parse_iso_week("2026-W54").is_err());
}

#[test]
fn test_format_iso_week() {
    assert_eq!(format_iso_week(2026, 2), "2026-W02");
    assert_eq!(format_iso_week(2026, 52), "2026-W52");
}

#[test]
fn parse_iso_week_reports_each_error() {
    assert_eq!(parse_iso_week("2026-02"), Err(IsoWeekError::Format));
    assert_eq!(parse_iso_week("20x6-W02"), Err(IsoWeekError::Year));
    assert_eq!(parse_iso_week("2026-Wxx"), Err(IsoWeekError::Week));
    assert_eq!(parse_iso_week("2026-W0"), Err(IsoWeekError::WeekRange));
    assert_eq!(parse_iso_week("2026-W54"), Err(IsoWeekError::WeekRange));
    assert_eq!(parse_iso_week("2026-W53"), Ok((2026, 53)));
    assert_eq!(
        IsoWeekError::WeekRange.message(),
        "Week number must be between 1 and 53"
    );
}

#[test]
fn format_then_parse_gives_the_week_back() {
    for (year, week) in [(2026, 1), (1999, 53), (-44, 7), (0, 10)] {
        let text = format_iso_week(year, week);
        assert_eq!(parse_iso_week(&text), Ok((year, week)));
    }
}

#[test]
fn output_format_extensions() {
    assert_eq!(OutputFormat::Markdown.extension(), "md");
    assert_eq!(OutputFormat::Html.extension(), "html");
    assert_eq!(OutputFormat::Pdf.extension(), "pdf");
    assert_eq!(OutputFormat::All.extension(), "");
}
