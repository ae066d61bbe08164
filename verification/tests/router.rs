use numfmt::{
    field_range, get_fields, numfmt, select_fields, tokenize, ConvertError, FieldRange,
    FormattingSpec, InvalidMode, LineOutput, Options, UnitFamily,
};
use regex::Regex;

fn options(delimiter: char, start: usize, end: usize, invalid: InvalidMode) -> Options {
    Options {
        from: UnitFamily::Auto,
        to: None,
        unit_size: 1,
        round: None,
        formatting: FormattingSpec {
            grouping: false,
            padding: 1,
            suffix: String::new(),
            format: None,
        },
        delimiter,
        fields: FieldRange { start, end },
        invalid,
        decimal_point: '.',
    }
}

fn strings(items: &[&str]) -> Vec<String> {
    items.iter().map(|item| item.to_string()).collect()
}

fn written(text: &str) -> LineOutput {
    LineOutput { text: text.to_string(), failure: None }
}

fn double_digits(field: &str) -> Result<String, ConvertError> {
    match field.parse::<u64>() {
        Ok(n) => Ok((2 * n).to_string()),
        Err(_) => Err(ConvertError::InvalidNumber),
    }
}

fn route(line: &str, o: &Options) -> LineOutput {
    let fields = select_fields(line, o.delimiter, o.fields);
    let outcomes: Vec<Result<String, ConvertError>> =
        fields.iter().map(|field| double_digits(field)).collect();
    numfmt(line.to_string(), o, &outcomes)
}

#[test]
fn tokenize_keeps_runs_of_delimiters() {
    assert_eq!(tokenize("a 10 b 20", ' '), strings(&["a", " ", "10", " ", "b", " ", "20"]));
    assert_eq!(tokenize("  a   b ", ' '), strings(&["  ", "a", "   ", "b", " "]));
    assert_eq!(tokenize("", ' '), strings(&[]));
    assert_eq!(tokenize("   ", ' '), strings(&["   "]));
    assert_eq!(tokenize("abc", ' '), strings(&["abc"]));
    assert_eq!(tokenize("a,b,,c", ','), strings(&["a", ",", "b", ",,", "c"]));
    assert_eq!(tokenize("a b", ','), strings(&["a b"]));
}

#[test]
fn tokenize_agrees_with_the_pattern() {
    let pattern = Regex::new(r"([^ ]+|[ ]+)").unwrap();
    let lines = [
        "a 10 b 20",
        "",
        " ",
        "x",
        "  leading and trailing  ",
        "tabs\tare\tnot blanks",
        "one  two   three    four",
        "line\nbreak inside",
        "ünï cödé 10K",
    ];
    for line in lines {
        let expected: Vec<String> =
            pattern.find_iter(line).map(|m| m.as_str().to_string()).collect();
        assert_eq!(tokenize(line, ' '), expected, "line {:?}", line);
    }
}

#[test]
fn tokens_join_back_into_the_line() {
    for line in ["a 10 b 20", "  x  ", "", "::a::b:", "no delimiter"] {
        for delimiter in [' ', ':'] {
            assert_eq!(tokenize(line, delimiter).concat(), line.to_string());
        }
    }
}

#[test]
fn select_fields_by_range() {
    let line = "a 10 b 20";
    assert_eq!(select_fields(line, ' ', FieldRange { start: 2, end: 2 }), strings(&["10"]));
    assert_eq!(
        select_fields(line, ' ', FieldRange { start: 1, end: usize::MAX }),
        strings(&["a", "10", "b", "20"])
    );
    assert_eq!(select_fields(line, ' ', FieldRange { start: 3, end: 9 }), strings(&["b", "20"]));
    assert_eq!(select_fields(line, ' ', FieldRange { start: 0, end: 1 }), strings(&["a"]));
    assert_eq!(select_fields(line, ' ', FieldRange { start: 5, end: 9 }), strings(&[]));
    assert_eq!(select_fields(line, ' ', FieldRange { start: 3, end: 2 }), strings(&[]));
    assert_eq!(
        select_fields("  a  b", ' ', FieldRange { start: 1, end: 1 }),
        strings(&["a"])
    );
}

#[test]
fn only_the_field_in_range_is_converted() {
    let o = options(' ', 2, 2, InvalidMode::Fail);
    assert_eq!(route("a 10 b 20", &o), written("a 20 b 20"));
    assert_eq!(route("a   10  b 20 ", &o), written("a   20  b 20 "));
    assert_eq!(route("  a 10", &o), written("  a 20"));
}

#[test]
fn a_line_without_field_in_range_passes_through() {
    let o = options(' ', 7, 9, InvalidMode::Fail);
    for line in ["a 10 b 20", "", "   ", " x  y "] {
        assert_eq!(route(line, &o), written(line));
    }
}

#[test]
fn identity_conversion_gives_the_line_back() {
    for mode in [InvalidMode::Fail, InvalidMode::Warn, InvalidMode::Ignore, InvalidMode::Abort] {
        let o = options(' ', 2, 3, mode);
        let line = " a  10 b   20 ";
        let fields = select_fields(line, o.delimiter, o.fields);
        let outcomes: Vec<Result<String, ConvertError>> =
            fields.iter().map(|field| Ok(field.clone())).collect();
        assert_eq!(numfmt(line.to_string(), &o, &outcomes), written(line));
    }
}

#[test]
fn fail_stops_at_the_first_error() {
    let o = options(' ', 1, usize::MAX, InvalidMode::Fail);
    assert_eq!(
        route("1 2 x 4 y", &o),
        LineOutput { text: "2 4 ".to_string(), failure: Some(ConvertError::InvalidNumber) }
    );
    assert_eq!(route("1 2 3", &o), written("2 4 6"));
}

#[test]
fn warn_writes_the_error_in_place() {
    let o = options(' ', 1, usize::MAX, InvalidMode::Warn);
    assert_eq!(
        route("1 x 3", &o),
        written("2 invalid float literal 6")
    );
}

#[test]
fn ignore_writes_nothing_for_the_field() {
    let o = options(' ', 1, usize::MAX, InvalidMode::Ignore);
    assert_eq!(route("1 x 3 y", &o), written("2  6 "));
}

#[test]
fn abort_drops_the_rest_of_the_line() {
    let o = options(' ', 1, usize::MAX, InvalidMode::Abort);
    assert_eq!(route("1 2 x 4 y", &o), written("2 4 "));
}

#[test]
fn errors_out_of_range_do_not_matter() {
    let o = options(' ', 2, 2, InvalidMode::Fail);
    assert_eq!(route("x 5 y", &o), written("x 10 y"));
}

#[test]
fn other_delimiters() {
    let o = options(':', 2, 3, InvalidMode::Fail);
    assert_eq!(route("a:1::2:3", &o), written("a:2::4:3"));
}

#[test]
fn field_range_forms() {
    assert_eq!(field_range("2-4"), FieldRange { start: 2, end: 4 });
    assert_eq!(field_range("-7"), FieldRange { start: 1, end: 7 });
    assert_eq!(field_range("3-"), FieldRange { start: 3, end: usize::MAX });
    assert_eq!(field_range("5"), FieldRange { start: 5, end: usize::MAX });
    assert_eq!(field_range("-"), FieldRange { start: 1, end: usize::MAX });
    assert_eq!(field_range(""), FieldRange { start: 1, end: usize::MAX });
    assert_eq!(
        field_range("1-18446744073709551615"),
        FieldRange { start: 1, end: usize::MAX }
    );
}

#[test]
fn get_fields_edge_cases() {
    assert_eq!(get_fields("+3-+4".to_string()), (3, 4));
    assert_eq!(get_fields("1-2-3".to_string()), (1, usize::MAX));
    assert_eq!(get_fields("007".to_string()), (7, usize::MAX));
    assert_eq!(get_fields("99999999999999999999999".to_string()), (1, usize::MAX));
    assert_eq!(get_fields("2-99999999999999999999999".to_string()), (2, usize::MAX));
    assert_eq!(get_fields(" 1".to_string()), (1, usize::MAX));
    assert_eq!(get_fields(" 3".to_string()), (1, usize::MAX));
    assert_eq!(get_fields("-".to_string()), (1, usize::MAX));
    assert_eq!(get_fields("-7".to_string()), (1, 7));
    assert_eq!(get_fields("x-7".to_string()), (usize::MAX, 7));
    assert_eq!(
        get_fields(format!("{}-7", usize::MAX)),
        (usize::MAX, 7)
    );
    assert_eq!(get_fields(format!("{}", usize::MAX)), (usize::MAX, usize::MAX));
}

#[test]
fn field_range_keeps_a_written_start() {
    assert_eq!(
        field_range(&format!("{}-", usize::MAX)),
        FieldRange { start: usize::MAX, end: usize::MAX }
    );
    assert_eq!(field_range("0-3"), FieldRange { start: 0, end: 3 });
    assert_eq!(field_range("x-3"), FieldRange { start: usize::MAX, end: 3 });
}
