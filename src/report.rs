//! One student's results, and the text lines that show them.

use vstd::prelude::*;
use vstd::string::StringExecFns;
use crate::calculator::{
    Grade, Ratio, assign_grade, calculate_average, calculate_percentage, fixed2_text, grade_of,
    spec_average, spec_percentage,
};
use crate::layout::spec_page;
use crate::marks::Decimal;
use crate::text::{nat_text, pad_right, push_nat, push_padded_right};

verus! {

/// Width that each label of the report is padded to.
pub const LABEL_WIDTH: usize = 16;

/// Why a report cannot be made from the given marks.
#[derive(Debug, Clone, Copy, PartialEq, Eq, Structural)]
pub enum ReportError {
    /// The number of subjects is zero, so there is no average.
    NoSubjects,
    /// The maximum marks are zero or negative, so there is no percentage.
    NonPositiveMax,
}

/// What a report holds, as mathematical values.
pub ghost struct ReportView {
    pub name: Seq<char>,
    pub total_marks: Decimal,
    pub max_marks: Decimal,
    pub num_subjects: u32,
    pub average: Ratio,
    pub percentage: Ratio,
    pub grade: Grade,
}

/// The report for the given inputs: the derived fields are computed from them.
pub open spec fn report_of(name: Seq<char>, total: Decimal, max: Decimal, subjects: u32) -> ReportView {
    let p = spec_percentage(total, max);
    ReportView {
        name,
        total_marks: total,
        max_marks: max,
        num_subjects: subjects,
        average: spec_average(total, subjects),
        percentage: p,
        grade: grade_of(p),
    }
}

/// A label padded to the label width, a colon, and the value.
pub open spec fn labelled(label: Seq<char>, value: Seq<char>) -> Seq<char> {
    pad_right(label, LABEL_WIDTH as nat) + ": "@ + value
}

/// The seven lines of the report card.
pub open spec fn spec_report_lines(v: ReportView) -> Seq<Seq<char>> {
    seq![
        labelled("Name"@, v.name),
        labelled("Marks Obtained"@, v.total_marks.spec_text()),
        labelled("Max Marks"@, v.max_marks.spec_text()),
        labelled("Subjects"@, nat_text(v.num_subjects as nat)),
        labelled("Average Marks"@, fixed2_text(v.average.num as int, v.average.den as int)),
        labelled(
            "Percentage"@,
            fixed2_text(v.percentage.num as int, v.percentage.den as int) + "%"@,
        ),
        labelled("Grade"@, v.grade.spec_letter()),
    ]
}

/// The short summary: name, average, percentage and grade.
pub open spec fn spec_summary_lines(v: ReportView) -> Seq<Seq<char>> {
    seq![
        "Name: "@ + v.name,
        "Average Marks: "@ + fixed2_text(v.average.num as int, v.average.den as int),
        "Percentage: "@ + fixed2_text(v.percentage.num as int, v.percentage.den as int) + "%"@,
        "Grade: "@ + v.grade.spec_letter(),
    ]
}

/// One student's marks and the statistics derived from them.
///
/// The derived fields are computed when the report is made and cannot be
/// changed on their own.
pub struct StudentReport {
    name: String,
    total_marks: Decimal,
    max_marks: Decimal,
    num_subjects: u32,
    average: Ratio,
    percentage: Ratio,
    grade: Grade,
}

impl View for StudentReport {
    type V = ReportView;

    closed spec fn view(&self) -> ReportView {
        ReportView {
            name: self.name@,
            total_marks: self.total_marks,
            max_marks: self.max_marks,
            num_subjects: self.num_subjects,
            average: self.average,
            percentage: self.percentage,
            grade: self.grade,
        }
    }
}

/// The inputs of a report are usable: both marks well formed, at least one
/// subject, and a positive maximum.
pub open spec fn valid_inputs(total: Decimal, max: Decimal, subjects: u32) -> bool {
    total.wf() && max.wf() && subjects > 0 && max.num() > 0
}

impl StudentReport {
    /// The derived fields are those of `report_of` for the inputs.
    pub open spec fn wf(&self) -> bool {
        &&& valid_inputs(self@.total_marks, self@.max_marks, self@.num_subjects)
        &&& self@.average.wf()
        &&& self@.percentage.wf()
        &&& self@ == report_of(
            self@.name,
            self@.total_marks,
            self@.max_marks,
            self@.num_subjects,
        )
    }

    /// Makes the report of one student, computing average, percentage and grade.
    pub fn new(name: String, total_marks: Decimal, max_marks: Decimal, num_subjects: u32) -> (r:
        Result<StudentReport, ReportError>)
        requires
            total_marks.wf(),
            max_marks.wf(),
        ensures
            num_subjects == 0 <==> r == Err::<StudentReport, ReportError>(ReportError::NoSubjects),
            num_subjects > 0 && max_marks.num() <= 0 <==> r == Err::<StudentReport, ReportError>(
                ReportError::NonPositiveMax,
            ),
            r is Ok <==> valid_inputs(total_marks, max_marks, num_subjects),
            r matches Ok(rep) ==> rep.wf() && rep@ == report_of(
                name@,
                total_marks,
                max_marks,
                num_subjects,
            ),
    {
        if num_subjects == 0 {
            return Err(ReportError::NoSubjects);
        }
        if !max_marks.is_positive() {
            return Err(ReportError::NonPositiveMax);
        }
        let average = calculate_average(total_marks, num_subjects);
        let percentage = calculate_percentage(total_marks, max_marks);
        let grade = assign_grade(percentage);
        Ok(StudentReport {
            name,
            total_marks,
            max_marks,
            num_subjects,
            average,
            percentage,
            grade,
        })
    }

    pub fn name(&self) -> (r: &str)
        ensures
            r@ == self@.name,
    {
        self.name.as_str()
    }

    pub fn total_marks(&self) -> (r: Decimal)
        ensures
            r == self@.total_marks,
    {
        self.total_marks
    }

    pub fn max_marks(&self) -> (r: Decimal)
        ensures
            r == self@.max_marks,
    {
        self.max_marks
    }

    pub fn num_subjects(&self) -> (r: u32)
        ensures
            r == self@.num_subjects,
    {
        self.num_subjects
    }

    pub fn average(&self) -> (r: Ratio)
        ensures
            r == self@.average,
    {
        self.average
    }

    pub fn percentage(&self) -> (r: Ratio)
        ensures
            r == self@.percentage,
    {
        self.percentage
    }

    pub fn grade(&self) -> (r: Grade)
        ensures
            r == self@.grade,
    {
        self.grade
    }

    /// The seven labelled lines of the report card.
    pub fn report_lines(&self) -> (r: Vec<String>)
        requires
            self.wf(),
        ensures
            r@.len() == 7,
            forall|i: int| 0 <= i < 7 ==> #[trigger] r@[i]@ == spec_report_lines(self@)[i],
    {
        let mut lines: Vec<String> = Vec::new();
        lines.push(labelled_line("Name", self.name.as_str()));
        let t = self.total_marks.to_text();
        lines.push(labelled_line("Marks Obtained", t.as_str()));
        let m = self.max_marks.to_text();
        lines.push(labelled_line("Max Marks", m.as_str()));
        let mut n = String::new();
        push_nat(&mut n, self.num_subjects as u128);
        lines.push(labelled_line("Subjects", n.as_str()));
        let a = self.average.to_fixed2();
        lines.push(labelled_line("Average Marks", a.as_str()));
        let mut p = self.percentage.to_fixed2();
        p.append("%");
        lines.push(labelled_line("Percentage", p.as_str()));
        lines.push(labelled_line("Grade", self.grade.letter()));
        proof {
            assert(n@ =~= nat_text(self@.num_subjects as nat));
        }
        lines
    }

    /// The summary printed after the marks are read.
    pub fn summary_lines(&self) -> (r: Vec<String>)
        requires
            self.wf(),
        ensures
            r@.len() == 4,
            forall|i: int| 0 <= i < 4 ==> #[trigger] r@[i]@ == spec_summary_lines(self@)[i],
    {
        let mut lines: Vec<String> = Vec::new();
        let mut s0 = String::new();
        s0.append("Name: ");
        s0.append(self.name.as_str());
        lines.push(s0);
        let mut s1 = String::new();
        s1.append("Average Marks: ");
        let a = self.average.to_fixed2();
        s1.append(a.as_str());
        lines.push(s1);
        let mut s2 = String::new();
        s2.append("Percentage: ");
        let p = self.percentage.to_fixed2();
        s2.append(p.as_str());
        s2.append("%");
        lines.push(s2);
        let mut s3 = String::new();
        s3.append("Grade: ");
        s3.append(self.grade.letter());
        lines.push(s3);
        lines
    }
}

/// `label` padded to the label width, then `": "` and `value`.
pub fn labelled_line(label: &str, value: &str) -> (r: String)
    ensures
        r@ == labelled(label@, value@),
{
    let mut s = String::new();
    push_padded_right(&mut s, label, LABEL_WIDTH);
    s.append(": ");
    s.append(value);
    proof {
        assert(s@ =~= labelled(label@, value@));
    }
    s
}

/// Two reports made from the same inputs are the same report, with the same
/// lines, the same summary and the same page.
pub proof fn report_is_deterministic(a: StudentReport, b: StudentReport)
    requires
        a.wf(),
        b.wf(),
        a@.name == b@.name,
        a@.total_marks == b@.total_marks,
        a@.max_marks == b@.max_marks,
        a@.num_subjects == b@.num_subjects,
    ensures
        a@ == b@,
        spec_report_lines(a@) == spec_report_lines(b@),
        spec_summary_lines(a@) == spec_summary_lines(b@),
        spec_page(spec_report_lines(a@)) == spec_page(spec_report_lines(b@)),
{
}

} // verus!
