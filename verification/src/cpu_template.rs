//! Telling from `/proc/cpuinfo` whether the CPU supports CPU templates.

use vstd::prelude::*;

use crate::http::first_pos;
use crate::text::{chars_equal, chars_of, trim, trim_bounds};

verus! {

/// The vendor that a `/proc/cpuinfo` line declares: a line `name: value`
/// whose trimmed name is `vendor_id`; the value is trimmed.
pub open spec fn vendor_id_of_line_spec(line: Seq<char>) -> Option<Seq<char>> {
    match first_pos(line, ':') {
        Some(k) => if trim(line.take(k as int)) == "vendor_id"@ {
            Some(trim(line.skip(k as int + 1)))
        } else {
            None
        },
        None => None,
    }
}

/// The vendor that a `/proc/cpuinfo` line declares, if any.
pub fn vendor_id_of_line(line: &str) -> (r: Option<String>)
    ensures
        r.deep_view() == vendor_id_of_line_spec(line@),
{
    let c = chars_of(line);
    let cs = c.as_slice();
    let n = c.len();
    let mut k: usize = 0;
    while k < n && cs[k] != ':'
        invariant
            k <= n,
            n == line@.len(),
            cs@ == line@,
            forall|j: int| 0 <= j < k ==> #[trigger] line@[j] != ':',
        decreases n - k,
    {
        k = k + 1;
    }
    if k == n {
        proof {
            crate::http::lemma_first_pos_none_pub(line@, ':');
        }
        return None;
    }
    proof {
        crate::http::lemma_first_pos_at_pub(line@, ':', k as nat);
    }
    let (na, nb) = trim_bounds(cs, 0, k);
    assert(line@.take(k as int) =~= line@.subrange(0, k as int));
    let name = &cs[na..nb];
    let want = chars_of("vendor_id");
    let mut name_v: Vec<char> = Vec::new();
    let mut i: usize = 0;
    while i < name.len()
        invariant
            i <= name@.len(),
            name_v@ == name@.take(i as int),
        decreases name.len() - i,
    {
        name_v.push(name[i]);
        assert(name_v@ =~= name@.take(i as int + 1));
        i = i + 1;
    }
    assert(name@.take(name@.len() as int) =~= name@);
    if !chars_equal(&name_v, &want) {
        return None;
    }
    let (va, vb) = trim_bounds(cs, k + 1, n);
    assert(line@.skip(k as int + 1) =~= line@.subrange(k as int + 1, n as int));
    Some(line.substring_char(va, vb).to_string())
}

/// The vendor that the first declaring line declares.
pub open spec fn first_vendor_id(lines: Seq<Seq<char>>) -> Option<Seq<char>>
    decreases lines.len(),
{
    if lines.len() == 0 {
        None
    } else {
        match vendor_id_of_line_spec(lines[0]) {
            Some(v) => Some(v),
            None => first_vendor_id(lines.drop_first()),
        }
    }
}

/// The vendor that the first declaring line of `/proc/cpuinfo` declares.
pub fn find_first_vendor_id(lines: &Vec<String>) -> (r: Option<String>)
    ensures
        r.deep_view() == first_vendor_id(lines.deep_view()),
{
    let mut i: usize = 0;
    assert(lines.deep_view().skip(0) =~= lines.deep_view());
    while i < lines.len()
        invariant
            i <= lines.len(),
            first_vendor_id(lines.deep_view()) == first_vendor_id(lines.deep_view().skip(i as int)),
        decreases lines.len() - i,
    {
        let ghost t = lines.deep_view().skip(i as int);
        assert(t[0] == lines@[i as int]@);
        assert(t.drop_first() =~= lines.deep_view().skip(i as int + 1));
        match vendor_id_of_line(lines[i].as_str()) {
            Some(v) => return Some(v),
            None => {},
        }
        i = i + 1;
    }
    assert(lines.deep_view().skip(lines.len() as int) =~= Seq::<Seq<char>>::empty());
    None
}

/// Whether the vendor is Intel, whose CPUs support CPU templates.
pub fn is_intel_vendor(vendor: Option<&str>) -> (r: bool)
    ensures
        r == (vendor matches Some(v) && v@ == "GenuineIntel"@),
{
    match vendor {
        Some(v) => chars_equal(&chars_of(v), &chars_of("GenuineIntel")),
        None => false,
    }
}

/// Whether the CPU that `/proc/cpuinfo` (given by its lines) describes
/// supports CPU templates: its first declared vendor is Intel.
pub fn support_cpu_template(cpuinfo_lines: &Vec<String>) -> (r: bool)
    ensures
        r == (first_vendor_id(cpuinfo_lines.deep_view()) == Some("GenuineIntel"@)),
{
    match find_first_vendor_id(cpuinfo_lines) {
        Some(v) => is_intel_vendor(Some(v.as_str())),
        None => false,
    }
}


/// What a question about CPU-template support needs next.
#[derive(Debug, Clone, Copy, PartialEq, Eq)]
pub enum CpuTemplateStep {
    /// The answer is known.
    Answer(bool),
    /// The answer needs the lines of `/proc/cpuinfo`, read once.
    ReadCpuinfo,
}

/// The next step of a question on a host that is (`x86_64`) or is not an
/// x86-64 host, given the remembered answer: other hosts never support CPU
/// templates; a remembered answer is given again; else `/proc/cpuinfo` is
/// read.
pub open spec fn cpu_template_step_spec(memo: Option<bool>, x86_64: bool) -> CpuTemplateStep {
    if !x86_64 {
        CpuTemplateStep::Answer(false)
    } else {
        match memo {
            Some(v) => CpuTemplateStep::Answer(v),
            None => CpuTemplateStep::ReadCpuinfo,
        }
    }
}

/// The remembered answer after `value` was worked out: the first answer is
/// kept for the rest of the process.
pub open spec fn cpu_template_remember_spec(memo: Option<bool>, value: bool) -> Option<bool> {
    match memo {
        Some(v) => Some(v),
        None => Some(value),
    }
}

/// The answer about CPU-template support that a process remembers once it
/// has read `/proc/cpuinfo`.
#[derive(Debug)]
pub struct CpuTemplateMemo {
    known: Option<bool>,
}

impl View for CpuTemplateMemo {
    type V = Option<bool>;

    closed spec fn view(&self) -> Option<bool> {
        self.known
    }
}

impl CpuTemplateMemo {
    /// Nothing remembered yet.
    pub fn new() -> (r: Self)
        ensures
            r@ is None,
    {
        CpuTemplateMemo { known: None }
    }

    /// The next step of a question (see [`cpu_template_step_spec`]).
    pub fn step(&self, x86_64: bool) -> (r: CpuTemplateStep)
        ensures
            r == cpu_template_step_spec(self@, x86_64),
    {
        if !x86_64 {
            CpuTemplateStep::Answer(false)
        } else {
            match self.known {
                Some(v) => CpuTemplateStep::Answer(v),
                None => CpuTemplateStep::ReadCpuinfo,
            }
        }
    }

    /// Works the answer out from the lines of `/proc/cpuinfo`, remembers it
    /// unless an answer is already remembered, and returns the answer worked
    /// out.
    pub fn answer_from_cpuinfo(&mut self, cpuinfo_lines: &Vec<String>) -> (r: bool)
        ensures
            r == (first_vendor_id(cpuinfo_lines.deep_view()) == Some("GenuineIntel"@)),
            final(self)@ == cpu_template_remember_spec(old(self)@, r),
    {
        let value = support_cpu_template(cpuinfo_lines);
        if self.known.is_none() {
            self.known = Some(value);
        }
        value
    }
}

/// Once a process has an answer about CPU-template support, every later
/// question on an x86-64 host gets that answer without reading
/// `/proc/cpuinfo`, and working an answer out again does not replace it.
pub proof fn law_cpu_template_answer_is_kept(memo: Option<bool>, value: bool, x86_64: bool)
    requires
        memo is Some,
    ensures
        cpu_template_remember_spec(memo, value) == memo,
        cpu_template_step_spec(memo, x86_64) == CpuTemplateStep::Answer(x86_64 && memo->0),
{
}

/// After the first answer is worked out, it is the one remembered.
pub proof fn law_cpu_template_first_answer_remembered(value: bool)
    ensures
        cpu_template_step_spec(cpu_template_remember_spec(None, value), true) == CpuTemplateStep::Answer(value),
{
}

} // verus!
