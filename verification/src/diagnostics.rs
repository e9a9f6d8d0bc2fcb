use vstd::prelude::*;

verus! {

/// How serious a diagnostic is.
#[derive(Debug, Clone, Copy, PartialEq, Eq, Structural)]
pub enum Severity {
    Info,
    Warning,
    Error,
}

/// A diagnostic: its severity, its code, its message and an optional hint.
#[derive(Debug, PartialEq, Eq)]
pub struct Diagnostic {
    severity: Severity,
    code: &'static str,
    message: String,
    hint: Option<String>,
}

/// The view of an optional string.
pub open spec fn optional_text(s: Option<String>) -> Option<Seq<char>> {
    match s {
        Some(t) => Some(t@),
        None => None,
    }
}

impl View for Diagnostic {
    type V = (Severity, Seq<char>, Seq<char>, Option<Seq<char>>);

    closed spec fn view(&self) -> (Severity, Seq<char>, Seq<char>, Option<Seq<char>>) {
        (self.severity, self.code@, self.message@, optional_text(self.hint))
    }
}

impl Clone for Diagnostic {
    fn clone(&self) -> (r: Self)
        ensures
            r@ == self@,
    {
        let hint = match &self.hint {
            Some(h) => Some(h.clone()),
            None => None,
        };
        Diagnostic { severity: self.severity, code: self.code, message: self.message.clone(), hint }
    }
}

impl Diagnostic {
    pub fn new(severity: Severity, code: &'static str, message: &str) -> (r: Self)
        ensures
            r@ == (severity, code@, message@, None::<Seq<char>>),
    {
        Diagnostic { severity, code, message: message.to_owned(), hint: None }
    }

    pub fn info(code: &'static str, message: &str) -> (r: Self)
        ensures
            r@ == (Severity::Info, code@, message@, None::<Seq<char>>),
    {
        Diagnostic::new(Severity::Info, code, message)
    }

    pub fn warning(code: &'static str, message: &str) -> (r: Self)
        ensures
            r@ == (Severity::Warning, code@, message@, None::<Seq<char>>),
    {
        Diagnostic::new(Severity::Warning, code, message)
    }

    pub fn error(code: &'static str, message: &str) -> (r: Self)
        ensures
            r@ == (Severity::Error, code@, message@, None::<Seq<char>>),
    {
        Diagnostic::new(Severity::Error, code, message)
    }

    /// The same diagnostic with `hint` attached.
    pub fn with_hint(self, hint: &str) -> (r: Self)
        ensures
            r@ == (self@.0, self@.1, self@.2, Some(hint@)),
    {
        let mut r = self;
        r.hint = Some(hint.to_owned());
        r
    }

    pub fn severity(&self) -> (r: Severity)
        ensures
            r == self@.0,
    {
        self.severity
    }

    pub fn code(&self) -> (r: &'static str)
        ensures
            r@ == self@.1,
    {
        self.code
    }

    pub fn message(&self) -> (r: &str)
        ensures
            r@ == self@.2,
    {
        self.message.as_str()
    }

    pub fn hint(&self) -> (r: Option<&str>)
        ensures
            match r {
                Some(h) => self@.3 == Some(h@),
                None => self@.3 is None,
            },
    {
        match &self.hint {
            Some(h) => Some(h.as_str()),
            None => None,
        }
    }
}

/// The views of a list of diagnostics.
pub open spec fn diagnostic_views(s: Seq<Diagnostic>) -> Seq<
    (Severity, Seq<char>, Seq<char>, Option<Seq<char>>),
> {
    s.map_values(|d: Diagnostic| d@)
}

/// The diagnostics of `s` that have severity `severity`, in order.
pub open spec fn of_severity(
    s: Seq<(Severity, Seq<char>, Seq<char>, Option<Seq<char>>)>,
    severity: Severity,
) -> Seq<(Severity, Seq<char>, Seq<char>, Option<Seq<char>>)> {
    s.filter(|d: (Severity, Seq<char>, Seq<char>, Option<Seq<char>>)| d.0 == severity)
}

/// The diagnostics gathered while planning or running a transfer, in the order they were reported.
#[derive(Debug, PartialEq, Eq)]
pub struct Report {
    diagnostics: Vec<Diagnostic>,
}

impl View for Report {
    type V = Seq<(Severity, Seq<char>, Seq<char>, Option<Seq<char>>)>;

    closed spec fn view(&self) -> Seq<(Severity, Seq<char>, Seq<char>, Option<Seq<char>>)> {
        diagnostic_views(self.diagnostics@)
    }
}

impl Default for Report {
    fn default() -> (r: Self)
        ensures
            r@ == Seq::<(Severity, Seq<char>, Seq<char>, Option<Seq<char>>)>::empty(),
    {
        Report::new()
    }
}

impl Report {
    pub fn new() -> (r: Self)
        ensures
            r@ == Seq::<(Severity, Seq<char>, Seq<char>, Option<Seq<char>>)>::empty(),
    {
        let r = Report { diagnostics: Vec::new() };
        assert(r@ =~= Seq::empty());
        r
    }

    pub fn push(&mut self, diagnostic: Diagnostic)
        ensures
            final(self)@ == old(self)@.push(diagnostic@),
    {
        self.diagnostics.push(diagnostic);
        assert(self@ =~= old(self)@.push(diagnostic@));
    }

    pub fn info(&mut self, code: &'static str, message: &str)
        ensures
            final(self)@ == old(self)@.push((Severity::Info, code@, message@, None)),
    {
        self.push(Diagnostic::info(code, message));
    }

    pub fn warn(&mut self, code: &'static str, message: &str)
        ensures
            final(self)@ == old(self)@.push((Severity::Warning, code@, message@, None)),
    {
        self.push(Diagnostic::warning(code, message));
    }

    pub fn error(&mut self, code: &'static str, message: &str)
        ensures
            final(self)@ == old(self)@.push((Severity::Error, code@, message@, None)),
    {
        self.push(Diagnostic::error(code, message));
    }

    pub fn is_empty(&self) -> (r: bool)
        ensures
            r == (self@.len() == 0),
    {
        self.diagnostics.len() == 0
    }

    pub fn has_errors(&self) -> (r: bool)
        ensures
            r == records_error(self@),
    {
        let n = self.diagnostics.len();
        let mut i: usize = 0;
        while i < n
            invariant
                n == self.diagnostics@.len(),
                i <= n,
                forall|k: int| 0 <= k < i ==> (#[trigger] self@[k]).0 != Severity::Error,
            decreases n - i,
        {
            assert(self@[i as int] == self.diagnostics@[i as int]@);
            if self.diagnostics[i].severity == Severity::Error {
                return true;
            }
            i = i + 1;
        }
        false
    }

    pub fn diagnostics(&self) -> (r: &[Diagnostic])
        ensures
            diagnostic_views(r@) == self@,
    {
        self.diagnostics.as_slice()
    }

    /// Appends `diagnostics` in order.
    pub fn extend(&mut self, diagnostics: Vec<Diagnostic>)
        ensures
            final(self)@ == old(self)@ + diagnostic_views(diagnostics@),
    {
        let mut more = diagnostics;
        self.diagnostics.append(&mut more);
        assert(self@ =~= old(self)@ + diagnostic_views(diagnostics@));
    }

    /// The diagnostics of severity `severity`, in order.
    fn of_severity(&self, severity: Severity) -> (r: Vec<&Diagnostic>)
        ensures
            r@.map_values(|d: &Diagnostic| d@) == of_severity(self@, severity),
    {
        let n = self.diagnostics.len();
        let mut out: Vec<&Diagnostic> = Vec::new();
        let mut i: usize = 0;
        while i < n
            invariant
                n == self.diagnostics@.len(),
                i <= n,
                out@.map_values(|d: &Diagnostic| d@) == of_severity(self@.take(i as int), severity),
            decreases n - i,
        {
            let ghost before = self@.take(i as int);
            let d = &self.diagnostics[i];
            if d.severity == severity {
                out.push(d);
            }
            proof {
                let after = self@.take(i + 1);
                assert(after.drop_last() =~= before);
                assert(after.last() == d@);
                reveal(Seq::filter);
                assert(out@.map_values(|d: &Diagnostic| d@) =~= of_severity(after, severity));
            }
            i = i + 1;
        }
        assert(self@.take(n as int) =~= self@);
        out
    }

    pub fn warnings(&self) -> (r: Vec<&Diagnostic>)
        ensures
            r@.map_values(|d: &Diagnostic| d@) == of_severity(self@, Severity::Warning),
    {
        self.of_severity(Severity::Warning)
    }

    pub fn errors(&self) -> (r: Vec<&Diagnostic>)
        ensures
            r@.map_values(|d: &Diagnostic| d@) == of_severity(self@, Severity::Error),
    {
        self.of_severity(Severity::Error)
    }

    pub fn into_diagnostics(self) -> (r: Vec<Diagnostic>)
        ensures
            diagnostic_views(r@) == self@,
    {
        self.diagnostics
    }
}

/// Whether a list of diagnostics holds an error.
pub open spec fn records_error(s: Seq<(Severity, Seq<char>, Seq<char>, Option<Seq<char>>)>) -> bool {
    exists|i: int| 0 <= i < s.len() && (#[trigger] s[i]).0 == Severity::Error
}

/// Once a report records an error it keeps it: `push`, `info`, `warn`, `error` and `extend` each
/// leave the old list followed by what they add, and such a list still holds the error, so after
/// any sequence of those calls `has_errors` stays true.
pub proof fn lemma_error_stays_recorded(
    s: Seq<(Severity, Seq<char>, Seq<char>, Option<Seq<char>>)>,
    more: Seq<(Severity, Seq<char>, Seq<char>, Option<Seq<char>>)>,
    d: (Severity, Seq<char>, Seq<char>, Option<Seq<char>>),
)
    requires
        records_error(s),
    ensures
        records_error(s + more),
        records_error(s.push(d)),
{
    let i = choose|i: int| 0 <= i < s.len() && (#[trigger] s[i]).0 == Severity::Error;
    assert((s + more)[i] == s[i]);
    assert(s.push(d)[i] == s[i]);
}

/// Every diagnostic of a report is counted under exactly one severity.
pub proof fn lemma_severities_partition_report(
    s: Seq<(Severity, Seq<char>, Seq<char>, Option<Seq<char>>)>,
)
    ensures
        of_severity(s, Severity::Info).len() + of_severity(s, Severity::Warning).len()
            + of_severity(s, Severity::Error).len() == s.len(),
    decreases s.len(),
{
    reveal(Seq::filter);
    if s.len() > 0 {
        lemma_severities_partition_report(s.drop_last());
    }
}

/// A report has errors exactly when its list of errors is not empty.
pub proof fn lemma_has_errors_iff_errors_listed(
    s: Seq<(Severity, Seq<char>, Seq<char>, Option<Seq<char>>)>,
)
    ensures
        (exists|i: int| 0 <= i < s.len() && (#[trigger] s[i]).0 == Severity::Error) <==> of_severity(
            s,
            Severity::Error,
        ).len() > 0,
    decreases s.len(),
{
    reveal(Seq::filter);
    if s.len() > 0 {
        let t = s.drop_last();
        lemma_has_errors_iff_errors_listed(t);
        if exists|i: int| 0 <= i < t.len() && (#[trigger] t[i]).0 == Severity::Error {
            let i = choose|i: int| 0 <= i < t.len() && (#[trigger] t[i]).0 == Severity::Error;
            assert(s[i] == t[i]);
        }
        if exists|i: int| 0 <= i < s.len() && (#[trigger] s[i]).0 == Severity::Error {
            let i = choose|i: int| 0 <= i < s.len() && (#[trigger] s[i]).0 == Severity::Error;
            if i < t.len() {
                assert(t[i] == s[i]);
            }
        }
    }
}

} // verus!
