use report_card::calculator::{assign_grade, calculate_average, calculate_percentage, Grade, Ratio};
use report_card::layout::{generate_page, line_y, PAGE_HEIGHT, PAGE_WIDTH};
use report_card::marks::{parse_count, parse_decimal, Decimal, InputError};
use report_card::report::{labelled_line, ReportError, StudentReport};

fn dec(s: &str) -> Decimal {
    parse_decimal(s).unwrap()
}

fn report(name: &str, total: &str, max: &str, subjects: u32) -> StudentReport {
    StudentReport::new(name.to_string(), dec(total), dec(max), subjects).unwrap()
}

fn pct(num: i128, den: i128) -> Grade {
    assign_grade(Ratio { num, den })
}

#[test]
fn parses_whole_and_fractional_marks() {
    assert_eq!(dec("450"), Decimal { negative: false, mantissa: 450, scale: 0 });
    assert_eq!(dec("89.90"), Decimal { negative: false, mantissa: 899, scale: 1 });
    assert_eq!(dec("-0.25"), Decimal { negative: true, mantissa: 25, scale: 2 });
    assert_eq!(dec("+3."), Decimal { negative: false, mantissa: 3, scale: 0 });
    assert_eq!(dec(".5"), Decimal { negative: false, mantissa: 5, scale: 1 });
    assert_eq!(dec("-0.0"), Decimal { negative: false, mantissa: 0, scale: 0 });
    assert_eq!(dec("120.000"), Decimal { negative: false, mantissa: 120, scale: 0 });
}

#[test]
fn rejects_text_that_is_not_a_mark() {
    assert_eq!(parse_decimal(""), Err(InputError::NotANumber));
    assert_eq!(parse_decimal("abc"), Err(InputError::NotANumber));
    assert_eq!(parse_decimal("1.2.3"), Err(InputError::NotANumber));
    assert_eq!(parse_decimal("."), Err(InputError::NotANumber));
    assert_eq!(parse_decimal("-"), Err(InputError::NotANumber));
    assert_eq!(parse_decimal("4 5"), Err(InputError::NotANumber));
    assert_eq!(parse_decimal("1234567890123456"), Err(InputError::TooManyDigits));
    assert!(parse_decimal("123456789012345").is_ok());
}

#[test]
fn parses_counts() {
    assert_eq!(parse_count("5"), Ok(5));
    assert_eq!(parse_count("+7"), Ok(7));
    assert_eq!(parse_count("0"), Ok(0));
    assert_eq!(parse_count("4294967295"), Ok(4294967295));
    assert_eq!(parse_count("4294967296"), Err(InputError::OutOfRange));
    assert_eq!(parse_count("-1"), Err(InputError::NotANumber));
    assert_eq!(parse_count("2.5"), Err(InputError::NotANumber));
    assert_eq!(parse_count(""), Err(InputError::NotANumber));
}

#[test]
fn marks_print_in_shortest_form() {
    assert_eq!(dec("450").to_text(), "450");
    assert_eq!(dec("007.50").to_text(), "7.5");
    assert_eq!(dec("-0.05").to_text(), "-0.05");
    assert_eq!(dec("3.").to_text(), "3");
}

#[test]
fn average_is_total_over_count() {
    let a = calculate_average(dec("450"), 5);
    assert_eq!(a.num * 5, 450 * a.den);
    assert_eq!(a.to_fixed2(), "90.00");
    let b = calculate_average(dec("10"), 3);
    assert_eq!(b.to_fixed2(), "3.33");
    let c = calculate_average(dec("20"), 3);
    assert_eq!(c.to_fixed2(), "6.67");
}

#[test]
fn percentage_is_total_over_max_times_hundred() {
    let p = calculate_percentage(dec("450"), dec("500"));
    assert_eq!(p.num * 500, 450 * 100 * p.den);
    assert_eq!(p.to_fixed2(), "90.00");
    let q = calculate_percentage(dec("1"), dec("3"));
    assert_eq!(q.to_fixed2(), "33.33");
    let r = calculate_percentage(dec("12.5"), dec("0.5"));
    assert_eq!(r.to_fixed2(), "2500.00");
}

#[test]
fn two_decimals_round_halves_away_from_zero() {
    assert_eq!(Ratio { num: 1, den: 8 }.to_fixed2(), "0.13");
    assert_eq!(Ratio { num: -1, den: 8 }.to_fixed2(), "-0.13");
    assert_eq!(Ratio { num: -1, den: 3 }.to_fixed2(), "-0.33");
    assert_eq!(Ratio { num: -1, den: 1000 }.to_fixed2(), "0.00");
    assert_eq!(Ratio { num: 12345, den: 1 }.to_fixed2(), "12345.00");
}

#[test]
fn grade_boundaries() {
    assert_eq!(pct(90, 1), Grade::A);
    assert_eq!(pct(899, 10), Grade::B);
    assert_eq!(pct(75, 1), Grade::B);
    assert_eq!(pct(749, 10), Grade::C);
    assert_eq!(pct(60, 1), Grade::C);
    assert_eq!(pct(599, 10), Grade::D);
    assert_eq!(pct(100, 1), Grade::A);
    assert_eq!(pct(0, 1), Grade::D);
    assert_eq!(pct(8999, 100), Grade::B);
    assert_eq!(pct(1001, 10), Grade::D);
    assert_eq!(pct(-5, 1), Grade::D);
    assert_eq!(Grade::A.letter(), "A");
    assert_eq!(Grade::D.letter(), "D");
}

#[test]
fn asha_scenario() {
    let r = report("Asha", "450", "500", 5);
    assert_eq!(r.average().to_fixed2(), "90.00");
    assert_eq!(r.percentage().to_fixed2(), "90.00");
    assert_eq!(r.grade(), Grade::A);
    assert_eq!(
        r.report_lines(),
        vec![
            "Name            : Asha",
            "Marks Obtained  : 450",
            "Max Marks       : 500",
            "Subjects        : 5",
            "Average Marks   : 90.00",
            "Percentage      : 90.00%",
            "Grade           : A",
        ]
    );
    assert_eq!(
        r.summary_lines(),
        vec!["Name: Asha", "Average Marks: 90.00", "Percentage: 90.00%", "Grade: A"]
    );
}

#[test]
fn zero_marks_scenario() {
    let r = report("Ravi", "0", "100", 1);
    assert_eq!(r.average().to_fixed2(), "0.00");
    assert_eq!(r.percentage().to_fixed2(), "0.00");
    assert_eq!(r.grade(), Grade::D);
    assert_eq!(r.report_lines()[6], "Grade           : D");
}

#[test]
fn lower_boundary_scenario() {
    let r = report("Mina", "375", "500", 5);
    assert_eq!(r.percentage().to_fixed2(), "75.00");
    assert_eq!(r.grade(), Grade::B);
    assert_eq!(r.report_lines()[5], "Percentage      : 75.00%");
}

#[test]
fn report_needs_subjects_and_positive_max() {
    let e = StudentReport::new("X".to_string(), dec("10"), dec("100"), 0).err();
    assert_eq!(e, Some(ReportError::NoSubjects));
    let e = StudentReport::new("X".to_string(), dec("10"), dec("0"), 3).err();
    assert_eq!(e, Some(ReportError::NonPositiveMax));
    let e = StudentReport::new("X".to_string(), dec("10"), dec("-5"), 3).err();
    assert_eq!(e, Some(ReportError::NonPositiveMax));
    let e = StudentReport::new("X".to_string(), dec("10"), dec("0"), 0).err();
    assert_eq!(e, Some(ReportError::NoSubjects));
}

#[test]
fn report_keeps_its_inputs() {
    let r = report("Li", "88.5", "100", 4);
    assert_eq!(r.name(), "Li");
    assert_eq!(r.total_marks(), dec("88.5"));
    assert_eq!(r.max_marks(), dec("100"));
    assert_eq!(r.num_subjects(), 4);
    assert_eq!(r.report_lines()[1], "Marks Obtained  : 88.5");
    assert_eq!(r.report_lines()[4], "Average Marks   : 22.13");
}

#[test]
fn same_inputs_same_report() {
    let a = report("Asha", "450", "500", 5);
    let b = report("Asha", "450", "500", 5);
    assert_eq!(a.report_lines(), b.report_lines());
    assert_eq!(a.summary_lines(), b.summary_lines());
    let pa = generate_page(&a);
    let pb = generate_page(&b);
    assert_eq!(pa.texts.len(), pb.texts.len());
    for (x, y) in pa.texts.iter().zip(pb.texts.iter()) {
        assert_eq!((&x.text, x.size, x.x, x.y), (&y.text, y.size, y.x, y.y));
    }
}

#[test]
fn labels_are_padded() {
    assert_eq!(labelled_line("Name", "Asha"), "Name            : Asha");
    assert_eq!(labelled_line("A label longer than sixteen", "v"), "A label longer than sixteen: v");
}

#[test]
fn page_layout() {
    let r = report("Asha", "450", "500", 5);
    let page = generate_page(&r);
    assert_eq!((page.width, page.height), (PAGE_WIDTH, PAGE_HEIGHT));
    assert_eq!((PAGE_WIDTH, PAGE_HEIGHT), (2100, 2970));
    assert_eq!(page.texts.len(), 8);
    assert_eq!(page.texts[0].text, "Student Report Card");
    assert_eq!((page.texts[0].size, page.texts[0].x, page.texts[0].y), (18, 600, 2700));
    let lines = r.report_lines();
    for i in 0..7 {
        let t = &page.texts[i + 1];
        assert_eq!(t.text, lines[i]);
        assert_eq!((t.size, t.x, t.y), (12, 650, 2300 - 100 * i as u32));
    }
    assert_eq!(page.shapes.len(), 2);
    assert!(!page.shapes[0].closed);
    assert_eq!(page.shapes[0].points.len(), 2);
    assert!(page.shapes[1].closed);
    let b: Vec<(u32, u32)> = page.shapes[1].points.iter().map(|p| (p.x, p.y)).collect();
    assert_eq!(b, vec![(400, 2400), (1700, 2400), (1700, 1500), (400, 1500), (400, 2400)]);
}

#[test]
fn lines_are_centred_in_the_box() {
    assert_eq!(line_y(0, 7), 2300);
    assert_eq!(line_y(6, 7), 1700);
    assert_eq!(line_y(0, 9), 2400);
    assert_eq!(line_y(0, 1), 2000);
}
