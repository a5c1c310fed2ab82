//! The decisions behind Disco's procedural macros, on plain values: the option
//! grammar of the `#[task(..)]` attribute and of `#[capability(..)]`, and the
//! plan of a task implementation (which method, which parameter is the input,
//! which type arguments are the output and the error, the task's name).  The
//! token streams themselves are read and written outside the library.

use vstd::prelude::*;

verus! {

/// One token of a macro's option list.
#[derive(Debug, Clone, PartialEq, Eq)]
pub enum OptionToken {
    /// An identifier or keyword.
    Word(String),
    Equals,
    Comma,
    /// The path separator `::`.
    PathSep,
    /// A string literal, by its value.
    Str(String),
    /// An integer literal, by its text.
    Int(String),
    /// Any other token.
    Other,
}

/// Why an option list was refused, with the position of the offending token
/// (the list's length where the list ended too early).
#[derive(Debug, Clone, Copy, PartialEq, Eq, Structural)]
pub enum OptionError {
    ExpectedIdent(usize),
    ExpectedEquals(usize),
    ExpectedStr(usize),
    ExpectedInt(usize),
    ExpectedPath(usize),
    ExpectedComma(usize),
    UnknownTaskOption(usize),
    UnknownCapabilityKey(usize),
}

pub open spec fn sep_text() -> Seq<char> {
    seq![':', ':']
}

/// The rest of a path from `k`: pairs of `::` and a word, consumed greedily.
/// Gives the number of tokens consumed and the text so far.
pub open spec fn path_tail(t: Seq<OptionToken>, k: nat, text: Seq<char>) -> (nat, Seq<char>)
    decreases t.len() - k,
{
    if k + 1 < t.len() && t[k as int] is PathSep && t[(k + 1) as int] is Word {
        let w = t[(k + 1) as int]->Word_0;
        let (c, s) = path_tail(t, k + 2, text + sep_text() + w@);
        (c + 2, s)
    } else {
        (0, text)
    }
}

/// A path at `i`: an optional leading `::`, a word, then `::`-separated
/// words.  Gives the number of tokens it takes and its text.
pub open spec fn path_at(t: Seq<OptionToken>, i: nat) -> Option<(nat, Seq<char>)> {
    let lead: nat = if i < t.len() && t[i as int] is PathSep { 1 } else { 0 };
    let j = i + lead;
    if j < t.len() && t[j as int] is Word {
        let start = if lead == 1 { sep_text() } else { Seq::<char>::empty() };
        let (c, s) = path_tail(t, j + 1, start + t[j as int]->Word_0@);
        Some((lead + 1 + c, s))
    } else {
        None
    }
}

/// The options of a `#[task(..)]` attribute.
pub struct TaskOptions {
    pub name: Option<String>,
    pub idempotent: bool,
    pub cancellable: bool,
    pub krate: Option<String>,
}

pub struct TaskOptionsView {
    pub name: Option<Seq<char>>,
    pub idempotent: bool,
    pub cancellable: bool,
    pub krate: Option<Seq<char>>,
}

pub open spec fn opt_view(s: Option<String>) -> Option<Seq<char>> {
    match s {
        Some(x) => Some(x@),
        None => None,
    }
}

impl View for TaskOptions {
    type V = TaskOptionsView;

    open spec fn view(&self) -> TaskOptionsView {
        TaskOptionsView {
            name: opt_view(self.name),
            idempotent: self.idempotent,
            cancellable: self.cancellable,
            krate: opt_view(self.krate),
        }
    }
}

/// What one option at `i` (a word) does: the tokens it takes after the word,
/// and the options after it.
pub open spec fn task_option_step(t: Seq<OptionToken>, i: nat, acc: TaskOptionsView) -> Result<
    (nat, TaskOptionsView),
    OptionError,
>
    recommends
        i < t.len(),
        t[i as int] is Word,
{
    let w = t[i as int]->Word_0@;
    if w == "idempotent"@ {
        Ok((0, TaskOptionsView { idempotent: true, ..acc }))
    } else if w == "cancellable"@ {
        Ok((0, TaskOptionsView { cancellable: true, ..acc }))
    } else if w == "name"@ {
        if !(i + 1 < t.len() && t[(i + 1) as int] is Equals) {
            Err(OptionError::ExpectedEquals((i + 1) as usize))
        } else if !(i + 2 < t.len() && t[(i + 2) as int] is Str) {
            Err(OptionError::ExpectedStr((i + 2) as usize))
        } else {
            Ok((2, TaskOptionsView { name: Some(t[(i + 2) as int]->Str_0@), ..acc }))
        }
    } else if w == "crate"@ {
        if !(i + 1 < t.len() && t[(i + 1) as int] is Equals) {
            Err(OptionError::ExpectedEquals((i + 1) as usize))
        } else {
            match path_at(t, i + 2) {
                Some((c, text)) => Ok((1 + c, TaskOptionsView { krate: Some(text), ..acc })),
                None => Err(OptionError::ExpectedPath((i + 2) as usize)),
            }
        }
    } else {
        Err(OptionError::UnknownTaskOption(i as usize))
    }
}

/// The `#[task(..)]` grammar from `i` on: options `idempotent`,
/// `cancellable`, `name = "<string>"` and `crate = <path>`, each optionally
/// followed by a comma; a later option overrides an earlier one.
pub open spec fn task_options_from(t: Seq<OptionToken>, i: nat, acc: TaskOptionsView) -> Result<
    TaskOptionsView,
    OptionError,
>
    decreases t.len() - i,
{
    if i >= t.len() {
        Ok(acc)
    } else if !(t[i as int] is Word) {
        Err(OptionError::ExpectedIdent(i as usize))
    } else {
        match task_option_step(t, i, acc) {
            Err(e) => Err(e),
            Ok((extra, a)) => {
                let n = i + 1 + extra;
                let n2 = if n < t.len() && t[n as int] is Comma { n + 1 } else { n };
                if n2 < t.len() {
                    task_options_from(t, n2, a)
                } else {
                    Ok(a)
                }
            },
        }
    }
}

/// No name, neither flag, no crate path.
pub open spec fn no_task_options() -> TaskOptionsView {
    TaskOptionsView { name: None, idempotent: false, cancellable: false, krate: None }
}

fn word_is(w: &String, lit: &str) -> (b: bool)
    ensures
        b == (w@ == lit@),
{
    let o = lit.to_owned();
    *w == o
}

fn is_path_sep(t: &Vec<OptionToken>, k: usize) -> (b: bool)
    ensures
        b == (k < t@.len() && t@[k as int] is PathSep),
{
    k < t.len() && match &t[k] {
        OptionToken::PathSep => true,
        _ => false,
    }
}

fn is_word(t: &Vec<OptionToken>, k: usize) -> (b: bool)
    ensures
        b == (k < t@.len() && t@[k as int] is Word),
{
    k < t.len() && match &t[k] {
        OptionToken::Word(_) => true,
        _ => false,
    }
}

fn is_equals(t: &Vec<OptionToken>, k: usize) -> (b: bool)
    ensures
        b == (k < t@.len() && t@[k as int] is Equals),
{
    k < t.len() && match &t[k] {
        OptionToken::Equals => true,
        _ => false,
    }
}

fn is_comma(t: &Vec<OptionToken>, k: usize) -> (b: bool)
    ensures
        b == (k < t@.len() && t@[k as int] is Comma),
{
    k < t.len() && match &t[k] {
        OptionToken::Comma => true,
        _ => false,
    }
}

/// The path at `i`, if one starts there.
fn parse_path(t: &Vec<OptionToken>, i: usize) -> (r: Option<(usize, String)>)
    requires
        t@.len() < usize::MAX - 2,
        i <= t@.len() + 2,
    ensures
        match r {
            Some((c, s)) => path_at(t@, i as nat) == Some((c as nat, s@)) && i + c <= t@.len(),
            None => path_at(t@, i as nat) is None,
        },
{
    let lead: usize = if is_path_sep(t, i) { 1 } else { 0 };
    let j = i + lead;
    if j >= t.len() {
        return None;
    }
    let mut text = String::new();
    match &t[j] {
        OptionToken::Word(w) => {
            if lead == 1 {
                proof {
                    reveal_strlit("::");
                }
                text.append("::");
            }
            text.append(w.as_str());
        },
        _ => {
            return None;
        },
    }
    let ghost start = text@;
    assert(start == (if lead == 1 { sep_text() } else { Seq::<char>::empty() }) + t@[j as int]->Word_0@);
    let mut k = j + 1;
    while k + 1 < t.len() && is_path_sep(t, k) && is_word(t, k + 1)
        invariant
            j + 1 <= k <= t@.len(),
            t@.len() < usize::MAX - 2,
            path_tail(t@, (j + 1) as nat, start) == ((k - j - 1 + path_tail(t@, k as nat, text@).0) as nat, path_tail(
                t@,
                k as nat,
                text@,
            ).1),
        decreases t@.len() - k,
    {
        proof {
            reveal_strlit("::");
        }
        let ghost old_text = text@;
        let ghost old_k = k;
        text.append("::");
        match &t[k + 1] {
            OptionToken::Word(w) => {
                text.append(w.as_str());
                assert(text@ == old_text + sep_text() + t@[(old_k + 1) as int]->Word_0@);
            },
            _ => {},
        }
        k = k + 2;
        assert(path_tail(t@, old_k as nat, old_text) == ((path_tail(t@, k as nat, text@).0 + 2) as nat, path_tail(
            t@,
            k as nat,
            text@,
        ).1));
    }
    Some((lead + 1 + (k - j - 1), text))
}

/// Reads the options of a `#[task(..)]` attribute.
pub fn parse_task_options(t: &Vec<OptionToken>) -> (r: Result<TaskOptions, OptionError>)
    requires
        t@.len() < usize::MAX - 2,
    ensures
        match r {
            Ok(o) => task_options_from(t@, 0, no_task_options()) == Ok::<TaskOptionsView, OptionError>(o@),
            Err(e) => task_options_from(t@, 0, no_task_options()) == Err::<TaskOptionsView, OptionError>(e),
        },
{
    let mut acc = TaskOptions { name: None, idempotent: false, cancellable: false, krate: None };
    let mut i: usize = 0;
    while i < t.len()
        invariant
            t@.len() < usize::MAX - 2,
            i <= t@.len(),
            task_options_from(t@, 0, no_task_options()) == task_options_from(t@, i as nat, acc@),
        decreases t@.len() - i,
    {
        let w = match &t[i] {
            OptionToken::Word(w) => w,
            _ => {
                return Err(OptionError::ExpectedIdent(i));
            },
        };
        let extra: usize;
        if word_is(w, "idempotent") {
            acc.idempotent = true;
            extra = 0;
        } else if word_is(w, "cancellable") {
            acc.cancellable = true;
            extra = 0;
        } else if word_is(w, "name") {
            if !is_equals(t, i + 1) {
                return Err(OptionError::ExpectedEquals(i + 1));
            }
            if i + 2 >= t.len() {
                return Err(OptionError::ExpectedStr(i + 2));
            }
            match &t[i + 2] {
                OptionToken::Str(s) => {
                    acc.name = Some(s.clone());
                },
                _ => {
                    return Err(OptionError::ExpectedStr(i + 2));
                },
            }
            extra = 2;
        } else if word_is(w, "crate") {
            if !is_equals(t, i + 1) {
                return Err(OptionError::ExpectedEquals(i + 1));
            }
            match parse_path(t, i + 2) {
                Some((c, text)) => {
                    acc.krate = Some(text);
                    extra = 1 + c;
                },
                None => {
                    return Err(OptionError::ExpectedPath(i + 2));
                },
            }
        } else {
            return Err(OptionError::UnknownTaskOption(i));
        }
        let n = i + 1 + extra;
        i = if is_comma(t, n) { n + 1 } else { n };
    }
    Ok(acc)
}

// ---------------------------------------------------------------------------
// `#[capability(..)]`
// ---------------------------------------------------------------------------

/// The options of `#[capability(..)]` attributes.
pub struct CapabilityOptions {
    pub name: Option<String>,
    pub version: Option<String>,
    pub krate: Option<String>,
}

pub struct CapabilityOptionsView {
    pub name: Option<Seq<char>>,
    pub version: Option<Seq<char>>,
    pub krate: Option<Seq<char>>,
}

impl View for CapabilityOptions {
    type V = CapabilityOptionsView;

    open spec fn view(&self) -> CapabilityOptionsView {
        CapabilityOptionsView {
            name: opt_view(self.name),
            version: opt_view(self.version),
            krate: opt_view(self.krate),
        }
    }
}

/// What the key at `i` (a word) does: the tokens it takes after the key, and
/// the options after it.
pub open spec fn capability_step(t: Seq<OptionToken>, i: nat, acc: CapabilityOptionsView) -> Result<
    (nat, CapabilityOptionsView),
    OptionError,
>
    recommends
        i < t.len(),
        t[i as int] is Word,
{
    let w = t[i as int]->Word_0@;
    if w == "name"@ || w == "version"@ || w == "crate"@ {
        if !(i + 1 < t.len() && t[(i + 1) as int] is Equals) {
            Err(OptionError::ExpectedEquals((i + 1) as usize))
        } else if w == "name"@ {
            if i + 2 < t.len() && t[(i + 2) as int] is Str {
                Ok((2, CapabilityOptionsView { name: Some(t[(i + 2) as int]->Str_0@), ..acc }))
            } else {
                Err(OptionError::ExpectedStr((i + 2) as usize))
            }
        } else if w == "version"@ {
            if i + 2 < t.len() && t[(i + 2) as int] is Int {
                Ok((2, CapabilityOptionsView { version: Some(t[(i + 2) as int]->Int_0@), ..acc }))
            } else {
                Err(OptionError::ExpectedInt((i + 2) as usize))
            }
        } else {
            match path_at(t, i + 2) {
                Some((c, text)) => Ok((1 + c, CapabilityOptionsView { krate: Some(text), ..acc })),
                None => Err(OptionError::ExpectedPath((i + 2) as usize)),
            }
        }
    } else {
        Err(OptionError::UnknownCapabilityKey(i as usize))
    }
}

/// The grammar of one `#[capability(..)]` attribute from `i` on: entries
/// `name = "<string>"`, `version = <integer>` and `crate = <path>`, separated
/// by commas, with an optional trailing comma; a later entry overrides an
/// earlier one.
pub open spec fn capability_options_from(t: Seq<OptionToken>, i: nat, acc: CapabilityOptionsView) -> Result<
    CapabilityOptionsView,
    OptionError,
>
    decreases t.len() - i,
{
    if i >= t.len() {
        Ok(acc)
    } else if !(t[i as int] is Word) {
        Err(OptionError::ExpectedIdent(i as usize))
    } else {
        match capability_step(t, i, acc) {
            Err(e) => Err(e),
            Ok((extra, a)) => {
                let n = i + 1 + extra;
                if n >= t.len() {
                    Ok(a)
                } else if t[n as int] is Comma {
                    if n + 1 < t.len() {
                        capability_options_from(t, n + 1, a)
                    } else {
                        Ok(a)
                    }
                } else {
                    Err(OptionError::ExpectedComma(n as usize))
                }
            },
        }
    }
}

/// Reads one `#[capability(..)]` attribute on top of the options read so far.
pub fn parse_capability_options(t: &Vec<OptionToken>, prior: CapabilityOptions) -> (r: Result<
    CapabilityOptions,
    OptionError,
>)
    requires
        t@.len() < usize::MAX - 2,
    ensures
        match r {
            Ok(o) => capability_options_from(t@, 0, prior@) == Ok::<CapabilityOptionsView, OptionError>(o@),
            Err(e) => capability_options_from(t@, 0, prior@) == Err::<CapabilityOptionsView, OptionError>(e),
        },
{
    let ghost start = prior@;
    let mut acc = prior;
    let mut i: usize = 0;
    while i < t.len()
        invariant
            t@.len() < usize::MAX - 2,
            i <= t@.len(),
            start == prior@,
            capability_options_from(t@, 0, start) == capability_options_from(t@, i as nat, acc@),
        decreases t@.len() - i,
    {
        let w = match &t[i] {
            OptionToken::Word(w) => w,
            _ => {
                return Err(OptionError::ExpectedIdent(i));
            },
        };
        let is_name = word_is(w, "name");
        let is_version = word_is(w, "version");
        let is_crate = word_is(w, "crate");
        if !(is_name || is_version || is_crate) {
            return Err(OptionError::UnknownCapabilityKey(i));
        }
        if !is_equals(t, i + 1) {
            return Err(OptionError::ExpectedEquals(i + 1));
        }
        let extra: usize;
        if is_name {
            if i + 2 >= t.len() {
                return Err(OptionError::ExpectedStr(i + 2));
            }
            match &t[i + 2] {
                OptionToken::Str(s) => {
                    acc.name = Some(s.clone());
                },
                _ => {
                    return Err(OptionError::ExpectedStr(i + 2));
                },
            }
            extra = 2;
        } else if is_version {
            if i + 2 >= t.len() {
                return Err(OptionError::ExpectedInt(i + 2));
            }
            match &t[i + 2] {
                OptionToken::Int(s) => {
                    acc.version = Some(s.clone());
                },
                _ => {
                    return Err(OptionError::ExpectedInt(i + 2));
                },
            }
            extra = 2;
        } else {
            match parse_path(t, i + 2) {
                Some((c, text)) => {
                    acc.krate = Some(text);
                    extra = 1 + c;
                },
                None => {
                    return Err(OptionError::ExpectedPath(i + 2));
                },
            }
        }
        let n = i + 1 + extra;
        if n >= t.len() {
            return Ok(acc);
        }
        if !is_comma(t, n) {
            return Err(OptionError::ExpectedComma(n));
        }
        i = n + 1;
    }
    Ok(acc)
}

/// What a capability implementation is generated from: its name, its version
/// literal and the path of the crate that defines the trait.
pub struct CapabilityPlan {
    pub name: String,
    pub version: String,
    pub krate: String,
}

/// The crate path used when none is given.
pub open spec fn default_krate() -> Seq<char> {
    "::disco_foundation"@
}

fn default_krate_string() -> (s: String)
    ensures
        s@ == default_krate(),
{
    "::disco_foundation".to_owned()
}

/// A capability is named after its type and has version 1 unless the
/// attributes say otherwise; the trait is found in `::disco_foundation`
/// unless a crate path is given.
pub fn plan_capability(opts: CapabilityOptions, type_ident: String) -> (p: CapabilityPlan)
    ensures
        p.name@ == (match opts.name {
            Some(n) => n@,
            None => type_ident@,
        }),
        p.version@ == (match opts.version {
            Some(v) => v@,
            None => "1u32"@,
        }),
        p.krate@ == (match opts.krate {
            Some(k) => k@,
            None => "::disco_foundation"@,
        }),
{
    let name = match opts.name {
        Some(n) => n,
        None => type_ident,
    };
    let version = match opts.version {
        Some(v) => v,
        None => "1u32".to_owned(),
    };
    let krate = match opts.krate {
        Some(k) => k,
        None => default_krate_string(),
    };
    proof {
        reveal_strlit("::disco_foundation");
    }
    CapabilityPlan { name, version, krate }
}

// ---------------------------------------------------------------------------
// `#[task]`
// ---------------------------------------------------------------------------

/// The declared return type of a task method.
pub enum ReturnShape {
    /// No return type.
    Default,
    /// A type that is not a path.
    NotPath,
    /// A path type: the identifier of its last segment and, where that
    /// segment has angle-bracketed arguments, for each argument whether it is
    /// a type.
    Path { last_ident: String, type_args: Option<Vec<bool>> },
}

/// The first position from `i` on that holds `true`.
pub open spec fn first_true_from(a: Seq<bool>, i: nat) -> Option<nat>
    decreases a.len() - i,
{
    if i >= a.len() {
        None
    } else if a[i as int] {
        Some(i)
    } else {
        first_true_from(a, i + 1)
    }
}

/// The positions of the output and error types of a `Result<Output, Error>`
/// return type: the first two type arguments of a path whose last segment is
/// `Result`.
pub open spec fn result_args(r: ReturnShape) -> Option<(nat, nat)> {
    match r {
        ReturnShape::Path { last_ident, type_args } => {
            if last_ident@ == "Result"@ && type_args is Some {
                let args = type_args->0@;
                match first_true_from(args, 0) {
                    Some(o) => match first_true_from(args, o + 1) {
                        Some(e) => Some((o, e)),
                        None => None,
                    },
                    None => None,
                }
            } else {
                None
            }
        },
        _ => None,
    }
}

fn first_true(a: &Vec<bool>, from: usize) -> (r: Option<usize>)
    requires
        from <= a@.len(),
    ensures
        match r {
            Some(i) => first_true_from(a@, from as nat) == Some(i as nat) && i < a@.len(),
            None => first_true_from(a@, from as nat) is None,
        },
{
    let mut i = from;
    while i < a.len()
        invariant
            from <= i <= a@.len(),
            first_true_from(a@, from as nat) == first_true_from(a@, i as nat),
        decreases a@.len() - i,
    {
        if a[i] {
            return Some(i);
        }
        i = i + 1;
    }
    None
}

/// The positions of the output and error types, when the return type has
/// the shape `Result<Output, Error>`.
pub fn result_type_args(r: &ReturnShape) -> (a: Option<(usize, usize)>)
    ensures
        match a {
            Some((o, e)) => result_args(*r) == Some((o as nat, e as nat)),
            None => result_args(*r) is None,
        },
{
    match r {
        ReturnShape::Path { last_ident, type_args } => {
            if !word_is(last_ident, "Result") {
                return None;
            }
            match type_args {
                Some(args) => {
                    let count = args.len();
                    match first_true(args, 0) {
                        Some(o) => {
                            assert(o < count);
                            match first_true(args, o + 1) {
                                Some(e) => Some((o, e)),
                                None => None,
                            }
                        },
                        None => None,
                    }
                },
                None => None,
            }
        },
        _ => None,
    }
}

/// The first method of a task's `impl` block, as the plan needs it.
pub struct MethodShape {
    /// Whether it takes `self`.
    pub has_receiver: bool,
    /// The position among its parameters of the first typed one, if any.
    pub first_typed: Option<usize>,
    pub ret: ReturnShape,
}

/// A parameter of a method: the receiver (`self` in any form) or a typed
/// parameter.
#[derive(Debug, Clone, Copy, PartialEq, Eq, Structural)]
pub enum ParamKind {
    Receiver,
    Typed,
}

/// The first position from `i` on that holds a typed parameter.
pub open spec fn first_typed_from(p: Seq<ParamKind>, i: nat) -> Option<nat>
    decreases p.len() - i,
{
    if i >= p.len() {
        None
    } else if p[i as int] is Typed {
        Some(i)
    } else {
        first_typed_from(p, i + 1)
    }
}

/// The shape of a method from its parameters, in order, and its return type:
/// it takes a receiver when any parameter is one, and its first typed
/// parameter is the one the task takes as input.
pub fn method_shape(params: &Vec<ParamKind>, ret: ReturnShape) -> (m: MethodShape)
    ensures
        m.has_receiver == (exists|i: int| 0 <= i < params@.len() && #[trigger] params@[i] is Receiver),
        m.first_typed matches Some(i) ==> first_typed_from(params@, 0) == Some(i as nat),
        m.first_typed is None ==> first_typed_from(params@, 0) is None,
        m.ret == ret,
{
    let mut has_receiver = false;
    let mut first_typed: Option<usize> = None;
    let mut i: usize = 0;
    while i < params.len()
        invariant
            i <= params@.len(),
            has_receiver == (exists|j: int| 0 <= j < i && #[trigger] params@[j] is Receiver),
            first_typed matches Some(k) ==> k < i && first_typed_from(params@, 0) == Some(k as nat),
            first_typed is None ==> first_typed_from(params@, 0) == first_typed_from(params@, i as nat),
        decreases params@.len() - i,
    {
        match params[i] {
            ParamKind::Receiver => {
                has_receiver = true;
            },
            ParamKind::Typed => {
                if first_typed.is_none() {
                    first_typed = Some(i);
                }
            },
        }
        i = i + 1;
    }
    MethodShape { has_receiver, first_typed, ret }
}

/// The position of the first method among the items of an `impl` block,
/// given for each item whether it is a method.
pub fn first_method(is_method: &Vec<bool>) -> (r: Option<usize>)
    ensures
        r matches Some(i) ==> first_true_from(is_method@, 0) == Some(i as nat) && i < is_method@.len(),
        r is None ==> first_true_from(is_method@, 0) is None,
{
    first_true(is_method, 0)
}

/// The segment a task is named after by default: the last segment of the
/// implementing type's path, where the type is a path with segments.
pub fn name_segment(path_segments: Option<Vec<String>>) -> (r: Option<String>)
    ensures
        r matches Some(s) ==> path_segments matches Some(v) && v@.len() > 0 && s@ == v@.last()@,
        r is None ==> path_segments matches None || path_segments->0@.len() == 0,
{
    match path_segments {
        Some(mut v) => v.pop(),
        None => None,
    }
}

/// Why a task implementation cannot be generated.
#[derive(Debug, Clone, Copy, PartialEq, Eq, Structural)]
pub enum TaskMacroError {
    /// The `impl` block has no method.
    MissingMethod,
    /// The method does not return `Result<Output, Error>`.
    BadReturn,
    /// The method has no input parameter.
    MissingInput,
}

/// What a task implementation is generated from.
pub struct TaskPlan {
    pub name: String,
    pub idempotent: bool,
    pub cancellable: bool,
    pub krate: String,
    /// The method is called on `self` (else on `Self`).
    pub call_on_self: bool,
    /// The position of the input parameter.
    pub input_index: usize,
    /// The positions among the return type's arguments of Output and Error.
    pub output_arg: usize,
    pub error_arg: usize,
}

pub struct TaskPlanView {
    pub name: Seq<char>,
    pub idempotent: bool,
    pub cancellable: bool,
    pub krate: Seq<char>,
    pub call_on_self: bool,
    pub input_index: nat,
    pub output_arg: nat,
    pub error_arg: nat,
}

impl View for TaskPlan {
    type V = TaskPlanView;

    open spec fn view(&self) -> TaskPlanView {
        TaskPlanView {
            name: self.name@,
            idempotent: self.idempotent,
            cancellable: self.cancellable,
            krate: self.krate@,
            call_on_self: self.call_on_self,
            input_index: self.input_index as nat,
            output_arg: self.output_arg as nat,
            error_arg: self.error_arg as nat,
        }
    }
}

/// The plan of a task implementation.  It fails, in this order, when there
/// is no method, when the method does not return `Result<Output, Error>`, and
/// when it has no input parameter.  Otherwise the task is named by the `name`
/// option, else after the last segment of the implementing type's path, else
/// `Task`; it is idempotent or cancellable only when the options say so; the
/// method is called on `self` when it takes a receiver; and the first typed
/// parameter is the input.
pub open spec fn task_plan_of(opts: TaskOptionsView, self_segment: Option<Seq<char>>, method: Option<MethodShape>) -> Result<
    TaskPlanView,
    TaskMacroError,
> {
    match method {
        None => Err(TaskMacroError::MissingMethod),
        Some(m) => match result_args(m.ret) {
            None => Err(TaskMacroError::BadReturn),
            Some((o, e)) => match m.first_typed {
                None => Err(TaskMacroError::MissingInput),
                Some(ix) => Ok(
                    TaskPlanView {
                        name: match opts.name {
                            Some(n) => n,
                            None => match self_segment {
                                Some(s) => s,
                                None => "Task"@,
                            },
                        },
                        idempotent: opts.idempotent,
                        cancellable: opts.cancellable,
                        krate: match opts.krate {
                            Some(k) => k,
                            None => default_krate(),
                        },
                        call_on_self: m.has_receiver,
                        input_index: ix as nat,
                        output_arg: o,
                        error_arg: e,
                    },
                ),
            },
        },
    }
}

/// Plans a task implementation from its options, the last segment of the
/// implementing type's path (if it is a path) and the first method.
pub fn plan_task(opts: TaskOptions, self_segment: Option<String>, method: Option<MethodShape>) -> (r: Result<
    TaskPlan,
    TaskMacroError,
>)
    ensures
        match r {
            Ok(p) => task_plan_of(opts@, opt_view(self_segment), method) == Ok::<TaskPlanView, TaskMacroError>(p@),
            Err(e) => task_plan_of(opts@, opt_view(self_segment), method) == Err::<TaskPlanView, TaskMacroError>(e),
        },
{
    let m = match method {
        None => {
            return Err(TaskMacroError::MissingMethod);
        },
        Some(m) => m,
    };
    let (o, e) = match result_type_args(&m.ret) {
        None => {
            return Err(TaskMacroError::BadReturn);
        },
        Some(p) => p,
    };
    let ix = match m.first_typed {
        None => {
            return Err(TaskMacroError::MissingInput);
        },
        Some(ix) => ix,
    };
    let name = match opts.name {
        Some(n) => n,
        None => match self_segment {
            Some(s) => s,
            None => "Task".to_owned(),
        },
    };
    let krate = match opts.krate {
        Some(k) => k,
        None => default_krate_string(),
    };
    Ok(
        TaskPlan {
            name,
            idempotent: opts.idempotent,
            cancellable: opts.cancellable,
            krate,
            call_on_self: m.has_receiver,
            input_index: ix,
            output_arg: o,
            error_arg: e,
        },
    )
}

/// With an empty `#[task]` attribute a task is neither idempotent nor
/// cancellable, is named after its type (or `Task` when the type is not a
/// path), and its method is called on `self` exactly when it takes a
/// receiver.
pub proof fn law_task_defaults(self_segment: Option<Seq<char>>, m: MethodShape)
    requires
        result_args(m.ret) is Some,
        m.first_typed is Some,
    ensures
        task_options_from(Seq::empty(), 0, no_task_options()) == Ok::<TaskOptionsView, OptionError>(
            no_task_options(),
        ),
        task_plan_of(no_task_options(), self_segment, Some(m)) is Ok,
        !task_plan_of(no_task_options(), self_segment, Some(m))->Ok_0.idempotent,
        !task_plan_of(no_task_options(), self_segment, Some(m))->Ok_0.cancellable,
        task_plan_of(no_task_options(), self_segment, Some(m))->Ok_0.name == (match self_segment {
            Some(s) => s,
            None => "Task"@,
        }),
        task_plan_of(no_task_options(), self_segment, Some(m))->Ok_0.call_on_self == m.has_receiver,
        task_plan_of(no_task_options(), self_segment, Some(m))->Ok_0.krate == default_krate(),
{
}


// ---------------------------------------------------------------------------
// Laws of the option grammar and of the plan
// ---------------------------------------------------------------------------

proof fn lemma_path_tail_prefix(t: Seq<OptionToken>, k: nat, p: Seq<char>, x: Seq<char>)
    ensures
        path_tail(t, k, p + x).0 == path_tail(t, k, x).0,
        path_tail(t, k, p + x).1 == p + path_tail(t, k, x).1,
    decreases t.len() - k,
{
    if k + 1 < t.len() && t[k as int] is PathSep && t[(k + 1) as int] is Word {
        let w = t[(k + 1) as int]->Word_0@;
        lemma_path_tail_prefix(t, k + 2, p, x + sep_text() + w);
        assert(p + x + sep_text() + w =~= p + (x + sep_text() + w));
    }
}

/// How a path is read at `i`: a word alone is a path of one token; a word,
/// `::` and a path make a path two tokens longer whose text joins the word
/// and the rest with `::`; a leading `::` before a path adds one token and
/// `::` in front of its text; anything else is no path.
pub proof fn law_path_at(t: Seq<OptionToken>, i: nat)
    ensures
        i < t.len() && t[i as int] is Word && !(i + 2 < t.len() && t[(i + 1) as int] is PathSep && t[(i
            + 2) as int] is Word) ==> path_at(t, i) == Some((1nat, t[i as int]->Word_0@)),
        i + 2 < t.len() && t[i as int] is Word && t[(i + 1) as int] is PathSep && t[(i + 2) as int] is Word
            ==> path_at(t, i + 2) is Some && path_at(t, i) == Some(
            (
                path_at(t, i + 2).unwrap().0 + 2,
                t[i as int]->Word_0@ + seq![':', ':'] + path_at(t, i + 2).unwrap().1,
            ),
        ),
        i + 1 < t.len() && t[i as int] is PathSep && t[(i + 1) as int] is Word ==> path_at(t, i + 1) is Some
            && path_at(t, i) == Some((path_at(t, i + 1).unwrap().0 + 1, seq![':', ':'] + path_at(t, i + 1).unwrap().1)),
        !(i < t.len() && t[i as int] is Word) && !(i + 1 < t.len() && t[i as int] is PathSep && t[(i
            + 1) as int] is Word) ==> path_at(t, i) is None,
{
    assert(sep_text() == seq![':', ':']);
    if i + 2 < t.len() && t[i as int] is Word && t[(i + 1) as int] is PathSep && t[(i + 2) as int] is Word {
        let w = t[i as int]->Word_0@;
        let x = t[(i + 2) as int]->Word_0@;
        lemma_path_tail_prefix(t, i + 3, w + sep_text(), x);
    }
    if i + 1 < t.len() && t[i as int] is PathSep && t[(i + 1) as int] is Word {
        let x = t[(i + 1) as int]->Word_0@;
        lemma_path_tail_prefix(t, i + 2, sep_text(), x);
        assert(Seq::<char>::empty() + x =~= x);
    }
    if i < t.len() && t[i as int] is Word {
        assert(Seq::<char>::empty() + t[i as int]->Word_0@ =~= t[i as int]->Word_0@);
    }
}

/// The task options from position `n` on, after an option ended at `n`: an
/// optional comma, then the rest of the list.
pub open spec fn task_options_after(t: Seq<OptionToken>, n: nat, acc: TaskOptionsView) -> Result<
    TaskOptionsView,
    OptionError,
> {
    let next = if n < t.len() && t[n as int] is Comma { n + 1 } else { n };
    if next < t.len() {
        task_options_from(t, next, acc)
    } else {
        Ok(acc)
    }
}

/// What each option of `#[task(..)]` does: `idempotent` and `cancellable`
/// set their own flag and nothing else; `name = "<s>"` sets the name to `s`;
/// `crate = <path>` takes the whole path; any other word is refused.
pub proof fn law_task_options(t: Seq<OptionToken>, i: nat, acc: TaskOptionsView)
    requires
        i < t.len(),
        t[i as int] is Word,
    ensures
        t[i as int]->Word_0@ == "idempotent"@ ==> task_options_from(t, i, acc) == task_options_after(
            t,
            i + 1,
            TaskOptionsView { idempotent: true, ..acc },
        ),
        t[i as int]->Word_0@ == "cancellable"@ ==> task_options_from(t, i, acc) == task_options_after(
            t,
            i + 1,
            TaskOptionsView { cancellable: true, ..acc },
        ),
        t[i as int]->Word_0@ == "name"@ && i + 2 < t.len() && t[(i + 1) as int] is Equals && t[(i
            + 2) as int] is Str ==> task_options_from(t, i, acc) == task_options_after(
            t,
            i + 3,
            TaskOptionsView { name: Some(t[(i + 2) as int]->Str_0@), ..acc },
        ),
        t[i as int]->Word_0@ == "crate"@ && i + 1 < t.len() && t[(i + 1) as int] is Equals && path_at(t, i
            + 2) is Some ==> task_options_from(t, i, acc) == task_options_after(
            t,
            i + 2 + path_at(t, i + 2).unwrap().0,
            TaskOptionsView { krate: Some(path_at(t, i + 2).unwrap().1), ..acc },
        ),
        t[i as int]->Word_0@ != "idempotent"@ && t[i as int]->Word_0@ != "cancellable"@ && t[i as int]->Word_0@
            != "name"@ && t[i as int]->Word_0@ != "crate"@ ==> task_options_from(t, i, acc) == Err::<
            TaskOptionsView,
            OptionError,
        >(OptionError::UnknownTaskOption(i as usize)),
{
    reveal_strlit("idempotent");
    reveal_strlit("cancellable");
    reveal_strlit("name");
    reveal_strlit("crate");
    assert("idempotent"@[0] != "cancellable"@[0]);
    assert("idempotent"@.len() != "name"@.len() && "cancellable"@.len() != "name"@.len());
    assert("idempotent"@.len() != "crate"@.len() && "cancellable"@.len() != "crate"@.len());
    assert("name"@.len() != "crate"@.len());
}

/// The capability entries from position `n` on, after an entry ended at `n`:
/// the end, or a comma and the rest (possibly nothing); anything else is a
/// missing comma.
pub open spec fn capability_options_after(t: Seq<OptionToken>, n: nat, acc: CapabilityOptionsView) -> Result<
    CapabilityOptionsView,
    OptionError,
> {
    if n >= t.len() {
        Ok(acc)
    } else if t[n as int] is Comma {
        if n + 1 < t.len() {
            capability_options_from(t, n + 1, acc)
        } else {
            Ok(acc)
        }
    } else {
        Err(OptionError::ExpectedComma(n as usize))
    }
}

/// What each entry of `#[capability(..)]` does: `name = "<s>"` sets the
/// name, `version = <int>` the version text, `crate = <path>` the whole path
/// (leading `::` and every segment); any other key is refused.
pub proof fn law_capability_options(t: Seq<OptionToken>, i: nat, acc: CapabilityOptionsView)
    requires
        i < t.len(),
        t[i as int] is Word,
    ensures
        t[i as int]->Word_0@ == "name"@ && i + 2 < t.len() && t[(i + 1) as int] is Equals && t[(i
            + 2) as int] is Str ==> capability_options_from(t, i, acc) == capability_options_after(
            t,
            i + 3,
            CapabilityOptionsView { name: Some(t[(i + 2) as int]->Str_0@), ..acc },
        ),
        t[i as int]->Word_0@ == "version"@ && i + 2 < t.len() && t[(i + 1) as int] is Equals && t[(i
            + 2) as int] is Int ==> capability_options_from(t, i, acc) == capability_options_after(
            t,
            i + 3,
            CapabilityOptionsView { version: Some(t[(i + 2) as int]->Int_0@), ..acc },
        ),
        t[i as int]->Word_0@ == "crate"@ && i + 1 < t.len() && t[(i + 1) as int] is Equals && path_at(t, i
            + 2) is Some ==> capability_options_from(t, i, acc) == capability_options_after(
            t,
            i + 2 + path_at(t, i + 2).unwrap().0,
            CapabilityOptionsView { krate: Some(path_at(t, i + 2).unwrap().1), ..acc },
        ),
        t[i as int]->Word_0@ != "name"@ && t[i as int]->Word_0@ != "version"@ && t[i as int]->Word_0@
            != "crate"@ ==> capability_options_from(t, i, acc) == Err::<CapabilityOptionsView, OptionError>(
            OptionError::UnknownCapabilityKey(i as usize),
        ),
{
    reveal_strlit("name");
    reveal_strlit("version");
    reveal_strlit("crate");
    assert("name"@.len() != "version"@.len() && "name"@.len() != "crate"@.len());
    assert("version"@.len() != "crate"@.len());
}

/// The first `true` from `i` on: it is at or after `i`, holds `true`, and
/// nothing between `i` and it does; there is none only when no position from
/// `i` on holds `true`.
pub proof fn law_first_true_from(a: Seq<bool>, i: nat)
    ensures
        first_true_from(a, i) matches Some(k) ==> i <= k < a.len() && a[k as int] && forall|j: int|
            i <= j < k ==> !a[j],
        first_true_from(a, i) is None ==> forall|j: int| i <= j < a.len() ==> !a[j],
    decreases a.len() - i,
{
    if i < a.len() && !a[i as int] {
        law_first_true_from(a, i + 1);
    }
}

/// A return type gives Output and Error exactly when it is a path ending in
/// `Result` with angle-bracketed arguments of which at least two are types;
/// they are then the first two type arguments, in order.
pub proof fn law_result_args(r: ReturnShape)
    ensures
        !(r is Path) ==> result_args(r) is None,
        r is Path && (r->last_ident@ != "Result"@ || r->type_args is None) ==> result_args(r) is None,
        r is Path && r->last_ident@ == "Result"@ && r->type_args is Some ==> ({
            let a = r->type_args->0@;
            &&& (result_args(r) matches Some((o, e)) ==> o < e < a.len() && a[o as int] && a[e as int] && forall|
                j: int,
            | 0 <= j < e && j != o ==> !a[j])
            &&& (result_args(r) is None ==> forall|j: int, k: int| 0 <= j < k < a.len() ==> !(a[j] && a[k]))
        }),
{
    if r is Path && r->type_args is Some {
        let a = r->type_args->0@;
        law_first_true_from(a, 0);
        if let Some(o) = first_true_from(a, 0) {
            law_first_true_from(a, o + 1);
        }
    }
}

/// What a task plan holds for every set of options, implementing type and
/// method: the errors in their order (no method, then a return type that is
/// not `Result<Output, Error>`, then no input parameter); otherwise success,
/// with each flag equal to its option, the given name, else the type's last
/// segment, else `Task`, the given crate path else `::disco_foundation`, a
/// call on `self` exactly when the method takes a receiver, the first typed
/// parameter as input, and Output and Error from the return type.
pub proof fn law_task_plan(opts: TaskOptionsView, self_segment: Option<Seq<char>>, method: Option<MethodShape>)
    ensures
        method is None ==> task_plan_of(opts, self_segment, method) == Err::<TaskPlanView, TaskMacroError>(
            TaskMacroError::MissingMethod,
        ),
        method is Some && result_args(method->0.ret) is None ==> task_plan_of(opts, self_segment, method)
            == Err::<TaskPlanView, TaskMacroError>(TaskMacroError::BadReturn),
        method is Some && result_args(method->0.ret) is Some && method->0.first_typed is None ==> task_plan_of(
            opts,
            self_segment,
            method,
        ) == Err::<TaskPlanView, TaskMacroError>(TaskMacroError::MissingInput),
        method is Some && result_args(method->0.ret) is Some && method->0.first_typed is Some ==> task_plan_of(
            opts,
            self_segment,
            method,
        ) is Ok,
        task_plan_of(opts, self_segment, method) is Ok ==> ({
            let p = task_plan_of(opts, self_segment, method)->Ok_0;
            let m = method->0;
            &&& p.idempotent == opts.idempotent
            &&& p.cancellable == opts.cancellable
            &&& opts.name matches Some(n) ==> p.name == n
            &&& opts.name is None ==> (self_segment matches Some(s) ==> p.name == s)
            &&& opts.name is None && self_segment is None ==> p.name == "Task"@
            &&& opts.krate matches Some(k) ==> p.krate == k
            &&& opts.krate is None ==> p.krate == "::disco_foundation"@
            &&& p.call_on_self == m.has_receiver
            &&& m.first_typed == Some(p.input_index as usize)
            &&& result_args(m.ret) == Some((p.output_arg, p.error_arg))
        }),
{
}


/// The first typed parameter from `i` on: it is at or after `i`, is typed,
/// and every parameter between `i` and it is a receiver; there is none only
/// when no parameter from `i` on is typed.
pub proof fn law_first_typed_from(p: Seq<ParamKind>, i: nat)
    ensures
        first_typed_from(p, i) matches Some(k) ==> i <= k < p.len() && p[k as int] is Typed && forall|j: int|
            i <= j < k ==> p[j] is Receiver,
        first_typed_from(p, i) is None ==> forall|j: int| i <= j < p.len() ==> p[j] is Receiver,
    decreases p.len() - i,
{
    if i < p.len() && !(p[i as int] is Typed) {
        law_first_typed_from(p, i + 1);
    }
}

/// Where each option list ends or breaks: at its end it gives what was read
/// so far; where an option or entry should start and a non-word stands, it
/// reports a missing identifier there; an option or entry that needs `=` and
/// a value reports the first of them that is missing.
pub proof fn law_option_list_edges(
    t: Seq<OptionToken>,
    i: nat,
    acc: TaskOptionsView,
    cacc: CapabilityOptionsView,
)
    ensures
        i >= t.len() ==> task_options_from(t, i, acc) == Ok::<TaskOptionsView, OptionError>(acc),
        i >= t.len() ==> capability_options_from(t, i, cacc) == Ok::<CapabilityOptionsView, OptionError>(cacc),
        i < t.len() && !(t[i as int] is Word) ==> task_options_from(t, i, acc) == Err::<
            TaskOptionsView,
            OptionError,
        >(OptionError::ExpectedIdent(i as usize)),
        i < t.len() && !(t[i as int] is Word) ==> capability_options_from(t, i, cacc) == Err::<
            CapabilityOptionsView,
            OptionError,
        >(OptionError::ExpectedIdent(i as usize)),
        i < t.len() && t[i as int] is Word && (t[i as int]->Word_0@ == "name"@ || t[i as int]->Word_0@
            == "crate"@) && !(i + 1 < t.len() && t[(i + 1) as int] is Equals) ==> task_options_from(t, i, acc)
            == Err::<TaskOptionsView, OptionError>(OptionError::ExpectedEquals((i + 1) as usize)),
        i < t.len() && t[i as int] is Word && t[i as int]->Word_0@ == "name"@ && i + 1 < t.len() && t[(i
            + 1) as int] is Equals && !(i + 2 < t.len() && t[(i + 2) as int] is Str) ==> task_options_from(
            t,
            i,
            acc,
        ) == Err::<TaskOptionsView, OptionError>(OptionError::ExpectedStr((i + 2) as usize)),
        i < t.len() && t[i as int] is Word && t[i as int]->Word_0@ == "crate"@ && i + 1 < t.len() && t[(i
            + 1) as int] is Equals && path_at(t, i + 2) is None ==> task_options_from(t, i, acc) == Err::<
            TaskOptionsView,
            OptionError,
        >(OptionError::ExpectedPath((i + 2) as usize)),
        i < t.len() && t[i as int] is Word && (t[i as int]->Word_0@ == "name"@ || t[i as int]->Word_0@
            == "version"@ || t[i as int]->Word_0@ == "crate"@) && !(i + 1 < t.len() && t[(i + 1) as int] is Equals)
            ==> capability_options_from(t, i, cacc) == Err::<CapabilityOptionsView, OptionError>(
            OptionError::ExpectedEquals((i + 1) as usize),
        ),
        i < t.len() && t[i as int] is Word && t[i as int]->Word_0@ == "name"@ && i + 1 < t.len() && t[(i
            + 1) as int] is Equals && !(i + 2 < t.len() && t[(i + 2) as int] is Str) ==> capability_options_from(
            t,
            i,
            cacc,
        ) == Err::<CapabilityOptionsView, OptionError>(OptionError::ExpectedStr((i + 2) as usize)),
        i < t.len() && t[i as int] is Word && t[i as int]->Word_0@ == "version"@ && i + 1 < t.len() && t[(i
            + 1) as int] is Equals && !(i + 2 < t.len() && t[(i + 2) as int] is Int) ==> capability_options_from(
            t,
            i,
            cacc,
        ) == Err::<CapabilityOptionsView, OptionError>(OptionError::ExpectedInt((i + 2) as usize)),
        i < t.len() && t[i as int] is Word && t[i as int]->Word_0@ == "crate"@ && i + 1 < t.len() && t[(i
            + 1) as int] is Equals && path_at(t, i + 2) is None ==> capability_options_from(t, i, cacc) == Err::<
            CapabilityOptionsView,
            OptionError,
        >(OptionError::ExpectedPath((i + 2) as usize)),
{
    reveal_strlit("idempotent");
    reveal_strlit("cancellable");
    reveal_strlit("name");
    reveal_strlit("crate");
    reveal_strlit("version");
    assert("idempotent"@.len() != "name"@.len() && "cancellable"@.len() != "name"@.len());
    assert("idempotent"@.len() != "crate"@.len() && "cancellable"@.len() != "crate"@.len());
    assert("name"@.len() != "crate"@.len() && "name"@.len() != "version"@.len());
    assert("version"@.len() != "crate"@.len());
}

} // verus!
