use csv_to_json_converter::Args;

fn strings(items: &[&str]) -> Vec<String> {
    items.iter().map(|item| String::from(*item)).collect()
}

#[test]
fn first_free_argument_is_the_input() {
    let args = Args::from_options(false, false, false, None, &strings(&["csv.csv"])).unwrap();
    assert_eq!(args.input, "csv.csv");
    assert_eq!(args.output, None);
    assert_eq!(args.is_nulled, false);
    assert_eq!(args.is_keyed, false);

    let args = Args::from_options(
        false,
        false,
        false,
        Some(String::from("csv.json")),
        &strings(&["csv.csv", "other.csv"]),
    )
    .unwrap();
    assert_eq!(args.input, "csv.csv");
    assert_eq!(args.output, Some(String::from("csv.json")));
    assert_eq!(args.is_nulled, false);
}

#[test]
fn flags_are_taken_as_given() {
    let args = Args::from_options(false, false, true, None, &strings(&["csv.csv"])).unwrap();
    assert_eq!(args.input, "csv.csv");
    assert_eq!(args.output, None);
    assert_eq!(args.is_nulled, true);
    assert_eq!(args.is_keyed, false);

    let args = Args::from_options(false, true, false, None, &strings(&["csv.csv"])).unwrap();
    assert_eq!(args.is_nulled, false);
    assert_eq!(args.is_keyed, true);
}

#[test]
fn help_or_missing_input_gives_no_settings() {
    assert!(Args::from_options(true, false, false, None, &strings(&["csv.csv"])).is_none());
    assert!(Args::from_options(false, true, true, None, &strings(&[])).is_none());
    assert!(Args::from_options(true, false, false, Some(String::from("o.json")), &strings(&[])).is_none());
}
