//! Regular-expression matching of field values, through the `regex` crate.

use vstd::prelude::*;

verus! {

#[verifier::external_type_specification]
#[verifier::external_body]
pub struct ExRegex(regex::Regex);

/// Whether `regex::Regex::new` accepts `pattern` (its syntax is valid and the
/// compiled program stays within the crate's default size limit).
pub uninterp spec fn regex_compiles(pattern: Seq<char>) -> bool;

/// Whether the regular expression `pattern` matches somewhere in `haystack`,
/// as `regex::Regex::is_match` decides it.
pub uninterp spec fn regex_matches(pattern: Seq<char>, haystack: Seq<char>) -> bool;

/// A compiled regular expression together with the text it was compiled from.
pub struct Pattern {
    source: &'static str,
    compiled: regex::Regex,
}

impl Pattern {
    /// The text this pattern was compiled from.
    pub closed spec fn source(&self) -> Seq<char> {
        self.source@
    }

    /// Compiles `source` with `regex::Regex::new`. The contract claims that
    /// the call succeeds exactly when `regex_compiles` holds of the source.
    /// What the error text says is left unsaid.
    #[verifier::external_body]
    pub(crate) fn compile(source: &'static str) -> (r: Result<Pattern, String>)
        ensures
            r is Ok <==> regex_compiles(source@),
            r matches Ok(p) ==> p.source() == source@,
    {
        match regex::Regex::new(source) {
            Ok(compiled) => Ok(Pattern { source, compiled }),
            Err(e) => Err(e.to_string()),
        }
    }

    /// Calls `regex::Regex::is_match`. The contract claims that the answer is
    /// `regex_matches` of the source the pattern was compiled from and of the
    /// haystack.
    #[verifier::external_body]
    pub(crate) fn is_match(&self, haystack: &str) -> (r: bool)
        ensures
            r == regex_matches(self.source(), haystack@),
    {
        self.compiled.is_match(haystack)
    }
}

/// The message a failed field check reports, with or without a closing
/// full stop.
pub open spec fn invalid_field_message(field: Seq<char>, pattern: Seq<char>, full_stop: bool) -> Seq<char> {
    "Field '"@ + field + "' is invalid. Expected pattern: "@ + pattern + (if full_stop {
        "."@
    } else {
        ""@
    })
}

/// How checking `value` against `pattern` for the field `field` fails:
/// `None` when it passes (no pattern, or a match); `Some(None)` when the
/// pattern does not compile; `Some(Some(message))` when the value does not
/// match.
pub open spec fn text_failure(pattern: Option<Seq<char>>, field: Seq<char>, value: Seq<char>, full_stop: bool) -> Option<Option<Seq<char>>> {
    match pattern {
        None => None,
        Some(p) => if !regex_compiles(p) {
            Some(None)
        } else if regex_matches(p, value) {
            None
        } else {
            Some(Some(invalid_field_message(field, p, full_stop)))
        },
    }
}

/// The earlier of two failures.
pub open spec fn first_failure(a: Option<Option<Seq<char>>>, b: Option<Option<Seq<char>>>) -> Option<Option<Seq<char>>> {
    if a is Some {
        a
    } else {
        b
    }
}

/// A failure with a known message.
pub open spec fn fails_with(message: Seq<char>) -> Option<Option<Seq<char>>> {
    Some(Some(message))
}

/// How checking each of `values`, in order, against `pattern` fails first.
pub open spec fn list_failure(pattern: Option<Seq<char>>, field: Seq<char>, values: Seq<Seq<char>>, full_stop: bool) -> Option<Option<Seq<char>>>
    decreases values.len(),
{
    if values.len() == 0 {
        None
    } else {
        first_failure(
            text_failure(pattern, field, values[0], full_stop),
            list_failure(pattern, field, values.skip(1), full_stop),
        )
    }
}

/// Checking a list fails exactly when checking one of its values fails.
pub proof fn lemma_list_failure_none(pattern: Option<Seq<char>>, field: Seq<char>, values: Seq<Seq<char>>, full_stop: bool)
    ensures
        list_failure(pattern, field, values, full_stop) is None <==> forall|i: int|
            0 <= i < values.len() ==> (#[trigger] text_failure(pattern, field, values[i], full_stop)) is None,
    decreases values.len(),
{
    if values.len() > 0 {
        let rest = values.skip(1);
        lemma_list_failure_none(pattern, field, rest, full_stop);
        if forall|i: int| 0 <= i < values.len() ==> (#[trigger] text_failure(pattern, field, values[i], full_stop)) is None {
            assert forall|i: int| 0 <= i < rest.len() implies (#[trigger] text_failure(pattern, field, rest[i], full_stop)) is None by {
                assert(rest[i] == values[i + 1]);
            }
        }
        if list_failure(pattern, field, values, full_stop) is None {
            assert forall|i: int| 0 <= i < values.len() implies (#[trigger] text_failure(pattern, field, values[i], full_stop)) is None by {
                if i > 0 {
                    assert(values[i] == rest[i - 1]);
                }
            }
        }
    }
}

/// How checking an optional value fails: an absent value passes.
pub open spec fn opt_failure(pattern: Option<Seq<char>>, field: Seq<char>, value: Option<Seq<char>>, full_stop: bool) -> Option<Option<Seq<char>>> {
    match value {
        None => None,
        Some(v) => text_failure(pattern, field, v, full_stop),
    }
}

/// `r` is the outcome that the failure `f` describes: `Ok` exactly when
/// nothing failed, and an error with the failure's message when it has one.
pub open spec fn outcome_agrees<T>(r: Result<T, String>, f: Option<Option<Seq<char>>>) -> bool {
    match r {
        Ok(_) => f is None,
        Err(e) => f is Some && (f->0 matches Some(m) ==> e@ == m),
    }
}

/// Builds the message a failed field check reports.
pub fn invalid_field_message_exec(field: &str, pattern: &str, full_stop: bool) -> (m: String)
    ensures
        m@ == invalid_field_message(field@, pattern@, full_stop),
{
    let mut m = String::new();
    m.append("Field '");
    m.append(field);
    m.append("' is invalid. Expected pattern: ");
    m.append(pattern);
    if full_stop {
        m.append(".");
    } else {
        m.append("");
    }
    m
}

/// Checks `value` against `pattern` (when there is one) for the field
/// `field_name`, reporting a failed match with the field and the pattern.
pub fn check_field(pattern: Option<&'static str>, field_name: &str, value: &str, full_stop: bool) -> (r: Result<(), String>)
    ensures
        outcome_agrees(r, text_failure(pattern.deep_view(), field_name@, value@, full_stop)),
{
    match pattern {
        None => Ok(()),
        Some(p) => {
            match Pattern::compile(p) {
                Ok(compiled) => {
                    if compiled.is_match(value) {
                        Ok(())
                    } else {
                        Err(invalid_field_message_exec(field_name, p, full_stop))
                    }
                },
                Err(e) => Err(e),
            }
        },
    }
}

/// Checks each of `values`, in order, and stops at the first failure.
pub fn check_each(pattern: Option<&'static str>, field_name: &str, values: &Vec<String>, full_stop: bool) -> (r: Result<(), String>)
    ensures
        outcome_agrees(r, list_failure(pattern.deep_view(), field_name@, values.deep_view(), full_stop)),
{
    let ghost pv = pattern.deep_view();
    let ghost all = values.deep_view();
    let mut i: usize = 0;
    assert(all.skip(0) =~= all);
    while i < values.len()
        invariant
            all == values.deep_view(),
            pv == pattern.deep_view(),
            i <= all.len(),
            list_failure(pv, field_name@, all, full_stop) == list_failure(pv, field_name@, all.skip(i as int), full_stop),
        decreases all.len() - i,
    {
        let ghost rest = all.skip(i as int);
        assert(rest[0] == values[i as int]@);
        assert(rest.skip(1) =~= all.skip(i + 1));
        let r = check_field(pattern, field_name, values[i].as_str(), full_stop);
        assert(list_failure(pv, field_name@, rest, full_stop) == first_failure(
            text_failure(pv, field_name@, rest[0], full_stop),
            list_failure(pv, field_name@, rest.skip(1), full_stop),
        ));
        if r.is_err() {
            return r;
        }
        i = i + 1;
    }
    assert(all.skip(i as int) =~= Seq::<Seq<char>>::empty());
    Ok(())
}

/// Checks an optional value; an absent value passes.
pub fn check_optional(pattern: Option<&'static str>, field_name: &str, value: &Option<String>, full_stop: bool) -> (r: Result<(), String>)
    ensures
        outcome_agrees(r, opt_failure(pattern.deep_view(), field_name@, value.deep_view(), full_stop)),
{
    match value {
        Some(v) => check_field(pattern, field_name, v.as_str(), full_stop),
        None => Ok(()),
    }
}

} // verus!
