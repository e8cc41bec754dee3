//! Hostname grammar: a hostname ending in `.sshpod` encodes the target
//! workload, and optionally a namespace, a context and a container, one
//! token per field, each token a `prefix--body` pair.

use vstd::prelude::*;
use crate::strutil::{
    contains_seq, contains_str, ends_with, ends_with_str, filter_nonempty, keep_nonempty,
    lemma_concat_starts_with, lemma_starts_with_differs, occurs_at, split_on, split_str,
    starts_with, starts_with_str, trim_trailing, trim_trailing_spec,
};

verus! {

/// The workload a hostname points at.
#[derive(Debug, Clone, PartialEq, Eq)]
pub enum Target {
    Pod(String),
    Deployment(String),
    Job(String),
}

/// The parsed form of a hostname.
#[derive(Debug, Clone, PartialEq, Eq)]
pub struct HostSpec {
    pub context: Option<String>,
    pub namespace: Option<String>,
    pub target: Target,
    pub container: Option<String>,
}

/// Why a hostname was rejected.
#[derive(Debug, Clone, PartialEq, Eq)]
pub enum HostSpecError {
    MissingSuffix,
    MissingSeparator { segment: String },
    InvalidFormat,
}

/// Mathematical image of `Target`.
pub enum TargetView {
    Pod(Seq<char>),
    Deployment(Seq<char>),
    Job(Seq<char>),
}

/// Mathematical image of `HostSpec`.
pub struct HostSpecView {
    pub context: Option<Seq<char>>,
    pub namespace: Option<Seq<char>>,
    pub target: TargetView,
    pub container: Option<Seq<char>>,
}

/// Mathematical image of `HostSpecError`.
pub enum HostErrView {
    MissingSuffix,
    MissingSeparator(Seq<char>),
    InvalidFormat,
}

impl View for Target {
    type V = TargetView;

    open spec fn view(&self) -> TargetView {
        match self {
            Target::Pod(s) => TargetView::Pod(s@),
            Target::Deployment(s) => TargetView::Deployment(s@),
            Target::Job(s) => TargetView::Job(s@),
        }
    }
}

/// The view of an optional string.
pub open spec fn opt_view(o: Option<String>) -> Option<Seq<char>> {
    match o {
        Option::Some(s) => Option::Some(s@),
        Option::None => Option::None,
    }
}

impl View for HostSpec {
    type V = HostSpecView;

    open spec fn view(&self) -> HostSpecView {
        HostSpecView {
            context: opt_view(self.context),
            namespace: opt_view(self.namespace),
            target: self.target@,
            container: opt_view(self.container),
        }
    }
}

impl View for HostSpecError {
    type V = HostErrView;

    open spec fn view(&self) -> HostErrView {
        match self {
            HostSpecError::MissingSuffix => HostErrView::MissingSuffix,
            HostSpecError::MissingSeparator { segment } => HostErrView::MissingSeparator(segment@),
            HostSpecError::InvalidFormat => HostErrView::InvalidFormat,
        }
    }
}

impl HostSpecError {
    /// The human-readable text of this refusal.
    pub fn message(&self) -> (r: String)
        ensures
            match self {
                HostSpecError::MissingSuffix => r@ == "hostname must end with .sshpod"@,
                HostSpecError::MissingSeparator { segment } => r@ == "hostname segment '"@
                    + segment@ + "' is missing \"--\""@,
                HostSpecError::InvalidFormat => r@
                    == "hostname must include one of pod--/deployment--/job-- (container-- optional, namespace-- optional, context-- optional), ending with .sshpod"@,
            },
    {
        match self {
            HostSpecError::MissingSuffix => String::from_str("hostname must end with .sshpod"),
            HostSpecError::MissingSeparator { segment } => {
                let mut m = String::from_str("hostname segment '");
                m.append(segment.as_str());
                m.append("' is missing \"--\"");
                m
            },
            HostSpecError::InvalidFormat => String::from_str(
                "hostname must include one of pod--/deployment--/job-- (container-- optional, namespace-- optional, context-- optional), ending with .sshpod",
            ),
        }
    }
}

pub open spec fn spec_suffix() -> Seq<char> {
    seq!['.', 's', 's', 'h', 'p', 'o', 'd']
}

pub open spec fn sep_dd() -> Seq<char> {
    seq!['-', '-']
}

pub open spec fn pfx_container() -> Seq<char> {
    seq!['c', 'o', 'n', 't', 'a', 'i', 'n', 'e', 'r', '-', '-']
}

pub open spec fn pfx_namespace() -> Seq<char> {
    seq!['n', 'a', 'm', 'e', 's', 'p', 'a', 'c', 'e', '-', '-']
}

pub open spec fn pfx_context() -> Seq<char> {
    seq!['c', 'o', 'n', 't', 'e', 'x', 't', '-', '-']
}

pub open spec fn pfx_pod() -> Seq<char> {
    seq!['p', 'o', 'd', '-', '-']
}

pub open spec fn pfx_deployment() -> Seq<char> {
    seq!['d', 'e', 'p', 'l', 'o', 'y', 'm', 'e', 'n', 't', '-', '-']
}

pub open spec fn pfx_job() -> Seq<char> {
    seq!['j', 'o', 'b', '-', '-']
}

/// What a lone target token means.
pub open spec fn spec_parse_target(tok: Seq<char>) -> Result<TargetView, HostErrView> {
    if tok.len() == 0 {
        Result::Err(HostErrView::InvalidFormat)
    } else if starts_with(tok, pfx_pod()) {
        if tok.len() == pfx_pod().len() {
            Result::Err(HostErrView::InvalidFormat)
        } else {
            Result::Ok(TargetView::Pod(tok.skip(pfx_pod().len() as int)))
        }
    } else if starts_with(tok, pfx_deployment()) {
        if tok.len() == pfx_deployment().len() {
            Result::Err(HostErrView::InvalidFormat)
        } else {
            Result::Ok(TargetView::Deployment(tok.skip(pfx_deployment().len() as int)))
        }
    } else if starts_with(tok, pfx_job()) {
        if tok.len() == pfx_job().len() {
            Result::Err(HostErrView::InvalidFormat)
        } else {
            Result::Ok(TargetView::Job(tok.skip(pfx_job().len() as int)))
        }
    } else {
        Result::Err(HostErrView::InvalidFormat)
    }
}

/// The fields gathered while walking the tokens.
pub struct ParseAcc {
    pub context: Option<Seq<char>>,
    pub namespace: Option<Seq<char>>,
    pub target: Option<TargetView>,
    pub container: Option<Seq<char>>,
}

pub open spec fn empty_acc() -> ParseAcc {
    ParseAcc { context: Option::None, namespace: Option::None, target: Option::None, container: Option::None }
}

/// Folds the remaining tokens over the gathered fields.
pub open spec fn parse_tokens(toks: Seq<Seq<char>>, acc: ParseAcc) -> Result<
    HostSpecView,
    HostErrView,
>
    decreases toks.len(),
{
    if toks.len() == 0 {
        match acc.target {
            Option::None => Result::Err(HostErrView::InvalidFormat),
            Option::Some(t) => Result::Ok(
                HostSpecView {
                    context: acc.context,
                    namespace: acc.namespace,
                    target: t,
                    container: acc.container,
                },
            ),
        }
    } else {
        let tok = toks.first();
        if !contains_seq(tok, sep_dd()) {
            Result::Err(HostErrView::MissingSeparator(tok))
        } else if starts_with(tok, pfx_container()) {
            if tok.len() == pfx_container().len() || acc.container is Some {
                Result::Err(HostErrView::InvalidFormat)
            } else {
                parse_tokens(
                    toks.drop_first(),
                    ParseAcc { container: Option::Some(tok.skip(pfx_container().len() as int)), ..acc },
                )
            }
        } else if starts_with(tok, pfx_namespace()) {
            if tok.len() == pfx_namespace().len() || acc.namespace is Some {
                Result::Err(HostErrView::InvalidFormat)
            } else {
                parse_tokens(
                    toks.drop_first(),
                    ParseAcc { namespace: Option::Some(tok.skip(pfx_namespace().len() as int)), ..acc },
                )
            }
        } else if starts_with(tok, pfx_context()) {
            if tok.len() == pfx_context().len() || acc.context is Some {
                Result::Err(HostErrView::InvalidFormat)
            } else {
                parse_tokens(
                    toks.drop_first(),
                    ParseAcc { context: Option::Some(tok.skip(pfx_context().len() as int)), ..acc },
                )
            }
        } else if acc.target is None {
            match spec_parse_target(tok) {
                Result::Ok(t) => parse_tokens(
                    toks.drop_first(),
                    ParseAcc { target: Option::Some(t), ..acc },
                ),
                Result::Err(e) => Result::Err(e),
            }
        } else {
            Result::Err(HostErrView::InvalidFormat)
        }
    }
}

/// What `parse` means: trim trailing dots, demand the suffix, split the
/// rest on dots, drop empty tokens, and fold the tokens.
pub open spec fn spec_parse(host: Seq<char>) -> Result<HostSpecView, HostErrView> {
    let t = trim_trailing_spec(host, '.');
    if !ends_with(t, spec_suffix()) {
        Result::Err(HostErrView::MissingSuffix)
    } else {
        let body = t.subrange(0, t.len() - spec_suffix().len());
        parse_tokens(keep_nonempty(split_on(body, '.')), empty_acc())
    }
}

/// The view of a parse outcome.
pub open spec fn parse_result_view(r: Result<HostSpec, HostSpecError>) -> Result<
    HostSpecView,
    HostErrView,
> {
    match r {
        Result::Ok(h) => Result::Ok(h@),
        Result::Err(e) => Result::Err(e@),
    }
}

/// The view of a target-parse outcome.
pub open spec fn target_result_view(r: Result<Target, HostSpecError>) -> Result<
    TargetView,
    HostErrView,
> {
    match r {
        Result::Ok(t) => Result::Ok(t@),
        Result::Err(e) => Result::Err(e@),
    }
}

proof fn lemma_literals()
    ensures
        ".sshpod"@ == spec_suffix(),
        "--"@ == sep_dd(),
        "container--"@ == pfx_container(),
        "namespace--"@ == pfx_namespace(),
        "context--"@ == pfx_context(),
        "pod--"@ == pfx_pod(),
        "deployment--"@ == pfx_deployment(),
        "job--"@ == pfx_job(),
{
    reveal_strlit(".sshpod");
    reveal_strlit("--");
    reveal_strlit("container--");
    reveal_strlit("namespace--");
    reveal_strlit("context--");
    reveal_strlit("pod--");
    reveal_strlit("deployment--");
    reveal_strlit("job--");
    assert(".sshpod"@ =~= spec_suffix());
    assert("--"@ =~= sep_dd());
    assert("container--"@ =~= pfx_container());
    assert("namespace--"@ =~= pfx_namespace());
    assert("context--"@ =~= pfx_context());
    assert("pod--"@ =~= pfx_pod());
    assert("deployment--"@ =~= pfx_deployment());
    assert("job--"@ =~= pfx_job());
}

/// The name a target carries.
pub open spec fn target_body(t: TargetView) -> Seq<char> {
    match t {
        TargetView::Pod(n) => n,
        TargetView::Deployment(n) => n,
        TargetView::Job(n) => n,
    }
}

/// The token a target renders to.
pub open spec fn render_target(t: TargetView) -> Seq<char> {
    match t {
        TargetView::Pod(n) => pfx_pod() + n,
        TargetView::Deployment(n) => pfx_deployment() + n,
        TargetView::Job(n) => pfx_job() + n,
    }
}

/// The token list a host spec renders to: container first, then the
/// target, the namespace and the context.
pub open spec fn host_tokens(v: HostSpecView) -> Seq<Seq<char>> {
    let copt = match v.container {
        Option::Some(b) => seq![pfx_container() + b],
        Option::None => Seq::<Seq<char>>::empty(),
    };
    let nopt = match v.namespace {
        Option::Some(b) => seq![pfx_namespace() + b],
        Option::None => Seq::<Seq<char>>::empty(),
    };
    let xopt = match v.context {
        Option::Some(b) => seq![pfx_context() + b],
        Option::None => Seq::<Seq<char>>::empty(),
    };
    copt + seq![render_target(v.target)] + nopt + xopt
}

/// The canonical hostname of a host spec.
pub open spec fn render_host(v: HostSpecView) -> Seq<char> {
    crate::strutil::join_on(host_tokens(v), '.') + spec_suffix()
}

/// A field body that survives a round trip: non-empty and dot-free.
pub open spec fn body_ok(b: Seq<char>) -> bool {
    b.len() > 0 && forall|i: int| 0 <= i < b.len() ==> b[i] != '.'
}

pub open spec fn opt_body_ok(o: Option<Seq<char>>) -> bool {
    match o {
        Option::Some(b) => body_ok(b),
        Option::None => true,
    }
}

/// A host spec whose fields render to a parseable hostname.
pub open spec fn wf_host(v: HostSpecView) -> bool {
    opt_body_ok(v.container) && opt_body_ok(v.namespace) && opt_body_ok(v.context) && body_ok(
        target_body(v.target),
    )
}

/// A token that is non-empty and dot-free.
pub open spec fn tok_ok(t: Seq<char>) -> bool {
    t.len() > 0 && forall|i: int| 0 <= i < t.len() ==> t[i] != '.'
}

proof fn lemma_prefixed_tok_ok(pfx: Seq<char>, b: Seq<char>)
    requires
        pfx.len() > 0,
        forall|i: int| 0 <= i < pfx.len() ==> pfx[i] != '.',
        forall|i: int| 0 <= i < b.len() ==> b[i] != '.',
    ensures
        tok_ok(pfx + b),
{
    assert forall|i: int| 0 <= i < (pfx + b).len() implies (pfx + b)[i] != '.' by {
        if i < pfx.len() {
            assert((pfx + b)[i] == pfx[i]);
        } else {
            assert((pfx + b)[i] == b[i - pfx.len()]);
        }
    }
}

proof fn lemma_step_container(toks: Seq<Seq<char>>, acc: ParseAcc, b: Seq<char>)
    requires
        toks.len() > 0,
        toks.first() == pfx_container() + b,
        b.len() > 0,
        acc.container is None,
    ensures
        parse_tokens(toks, acc) == parse_tokens(
            toks.drop_first(),
            ParseAcc { container: Option::Some(b), ..acc },
        ),
{
    let tok = toks.first();
    assert(tok.subrange(9, 11) =~= sep_dd());
    assert(occurs_at(tok, sep_dd(), 9));
    lemma_concat_starts_with(pfx_container(), b);
    assert(tok.skip(pfx_container().len() as int) =~= b);
}

proof fn lemma_step_namespace(toks: Seq<Seq<char>>, acc: ParseAcc, b: Seq<char>)
    requires
        toks.len() > 0,
        toks.first() == pfx_namespace() + b,
        b.len() > 0,
        acc.namespace is None,
    ensures
        parse_tokens(toks, acc) == parse_tokens(
            toks.drop_first(),
            ParseAcc { namespace: Option::Some(b), ..acc },
        ),
{
    let tok = toks.first();
    assert(tok.subrange(9, 11) =~= sep_dd());
    assert(occurs_at(tok, sep_dd(), 9));
    lemma_concat_starts_with(pfx_namespace(), b);
    assert(tok[0] == 'n');
    lemma_starts_with_differs(tok, pfx_container(), 0);
    assert(tok.skip(pfx_namespace().len() as int) =~= b);
}

proof fn lemma_step_context(toks: Seq<Seq<char>>, acc: ParseAcc, b: Seq<char>)
    requires
        toks.len() > 0,
        toks.first() == pfx_context() + b,
        b.len() > 0,
        acc.context is None,
    ensures
        parse_tokens(toks, acc) == parse_tokens(
            toks.drop_first(),
            ParseAcc { context: Option::Some(b), ..acc },
        ),
{
    let tok = toks.first();
    assert(tok.subrange(7, 9) =~= sep_dd());
    assert(occurs_at(tok, sep_dd(), 7));
    lemma_concat_starts_with(pfx_context(), b);
    assert(tok[4] == 'e');
    lemma_starts_with_differs(tok, pfx_container(), 4);
    assert(tok[0] == 'c');
    lemma_starts_with_differs(tok, pfx_namespace(), 0);
    assert(tok.skip(pfx_context().len() as int) =~= b);
}

proof fn lemma_step_target(toks: Seq<Seq<char>>, acc: ParseAcc, t: TargetView)
    requires
        toks.len() > 0,
        toks.first() == render_target(t),
        target_body(t).len() > 0,
        acc.target is None,
    ensures
        parse_tokens(toks, acc) == parse_tokens(
            toks.drop_first(),
            ParseAcc { target: Option::Some(t), ..acc },
        ),
{
    let tok = toks.first();
    match t {
        TargetView::Pod(b) => {
            lemma_concat_starts_with(pfx_pod(), b);
            assert(tok[0] == 'p');
            assert(tok.subrange(3, 5) =~= sep_dd());
            assert(occurs_at(tok, sep_dd(), 3));
            lemma_starts_with_differs(tok, pfx_container(), 0);
            lemma_starts_with_differs(tok, pfx_namespace(), 0);
            lemma_starts_with_differs(tok, pfx_context(), 0);
            assert(tok.skip(pfx_pod().len() as int) =~= b);
        },
        TargetView::Deployment(b) => {
            lemma_concat_starts_with(pfx_deployment(), b);
            assert(tok[0] == 'd');
            assert(tok.subrange(10, 12) =~= sep_dd());
            assert(occurs_at(tok, sep_dd(), 10));
            lemma_starts_with_differs(tok, pfx_container(), 0);
            lemma_starts_with_differs(tok, pfx_namespace(), 0);
            lemma_starts_with_differs(tok, pfx_context(), 0);
            lemma_starts_with_differs(tok, pfx_pod(), 0);
            assert(tok.skip(pfx_deployment().len() as int) =~= b);
        },
        TargetView::Job(b) => {
            lemma_concat_starts_with(pfx_job(), b);
            assert(tok[0] == 'j');
            assert(tok.subrange(3, 5) =~= sep_dd());
            assert(occurs_at(tok, sep_dd(), 3));
            lemma_starts_with_differs(tok, pfx_container(), 0);
            lemma_starts_with_differs(tok, pfx_namespace(), 0);
            lemma_starts_with_differs(tok, pfx_context(), 0);
            lemma_starts_with_differs(tok, pfx_pod(), 0);
            lemma_starts_with_differs(tok, pfx_deployment(), 0);
            assert(tok.skip(pfx_job().len() as int) =~= b);
        },
    }
}

/// Round trip: parsing the canonical hostname of a well-formed host spec
/// restores every field without loss.
pub proof fn lemma_parse_round_trip(v: HostSpecView)
    requires
        wf_host(v),
    ensures
        spec_parse(render_host(v)) == Result::<HostSpecView, HostErrView>::Ok(v),
{
    let toks = host_tokens(v);
    let j = crate::strutil::join_on(toks, '.');
    let h = render_host(v);

    // Every token is non-empty and dot-free.
    assert forall|i: int| 0 <= i < toks.len() implies tok_ok(#[trigger] toks[i]) by {
        lemma_tok_kinds(v, i);
    }

    // The rendered hostname keeps its suffix and loses nothing to trimming.
    assert(h.last() == 'd');
    assert(trim_trailing_spec(h, '.') == h);
    assert(h.subrange(h.len() - 7, h.len() as int) =~= spec_suffix());
    assert(ends_with(h, spec_suffix()));
    assert(h.subrange(0, h.len() - 7) =~= j);

    // Splitting the join restores the token list.
    assert forall|a: int, b: int|
        0 <= a < toks.len() && 0 <= b < toks[a].len() implies toks[a][b] != '.' by {
        assert(tok_ok(toks[a]));
    }
    crate::strutil::lemma_split_on_join(toks, '.');
    crate::strutil::lemma_keep_nonempty_id(toks);

    // Walk the tokens: container, target, namespace, context.
    let tt = render_target(v.target);
    let nopt = match v.namespace {
        Option::Some(b) => seq![pfx_namespace() + b],
        Option::None => Seq::<Seq<char>>::empty(),
    };
    let xopt = match v.context {
        Option::Some(b) => seq![pfx_context() + b],
        Option::None => Seq::<Seq<char>>::empty(),
    };
    let rest1 = seq![tt] + nopt + xopt;
    let acc1 = ParseAcc { container: v.container, ..empty_acc() };
    match v.container {
        Option::Some(b) => {
            assert(toks.first() == pfx_container() + b);
            assert(toks.drop_first() =~= rest1);
            lemma_step_container(toks, empty_acc(), b);
        },
        Option::None => {
            assert(toks =~= rest1);
        },
    }
    assert(parse_tokens(toks, empty_acc()) == parse_tokens(rest1, acc1));

    let rest2 = nopt + xopt;
    let acc2 = ParseAcc { target: Option::Some(v.target), ..acc1 };
    assert(rest1.first() == tt);
    assert(rest1.drop_first() =~= rest2);
    lemma_step_target(rest1, acc1, v.target);
    assert(parse_tokens(rest1, acc1) == parse_tokens(rest2, acc2));

    let acc3 = ParseAcc { namespace: v.namespace, ..acc2 };
    match v.namespace {
        Option::Some(b) => {
            assert(rest2.first() == pfx_namespace() + b);
            assert(rest2.drop_first() =~= xopt);
            lemma_step_namespace(rest2, acc2, b);
        },
        Option::None => {
            assert(rest2 =~= xopt);
        },
    }
    assert(parse_tokens(rest2, acc2) == parse_tokens(xopt, acc3));

    let acc4 = ParseAcc { context: v.context, ..acc3 };
    match v.context {
        Option::Some(b) => {
            assert(xopt.first() == pfx_context() + b);
            assert(xopt.drop_first() =~= Seq::<Seq<char>>::empty());
            lemma_step_context(xopt, acc3, b);
        },
        Option::None => {},
    }
    assert(parse_tokens(xopt, acc3) == parse_tokens(Seq::<Seq<char>>::empty(), acc4));
    assert(spec_parse(h) == Result::<HostSpecView, HostErrView>::Ok(v));
}

proof fn lemma_tok_kinds(v: HostSpecView, i: int)
    requires
        wf_host(v),
        0 <= i < host_tokens(v).len(),
    ensures
        tok_ok(host_tokens(v)[i]),
{
    let toks = host_tokens(v);
    let cl: int = match v.container {
        Option::Some(_) => 1,
        Option::None => 0,
    };
    let nl: int = match v.namespace {
        Option::Some(_) => 1,
        Option::None => 0,
    };
    if i < cl {
        let b = v.container.unwrap();
        assert(toks[i] == pfx_container() + b);
        lemma_prefixed_tok_ok(pfx_container(), b);
    } else if i < cl + 1 {
        match v.target {
            TargetView::Pod(b) => lemma_prefixed_tok_ok(pfx_pod(), b),
            TargetView::Deployment(b) => lemma_prefixed_tok_ok(pfx_deployment(), b),
            TargetView::Job(b) => lemma_prefixed_tok_ok(pfx_job(), b),
        }
        assert(toks[i] == render_target(v.target));
    } else if i < cl + 1 + nl {
        let b = v.namespace.unwrap();
        assert(toks[i] == pfx_namespace() + b);
        lemma_prefixed_tok_ok(pfx_namespace(), b);
    } else {
        let b = v.context.unwrap();
        assert(toks[i] == pfx_context() + b);
        lemma_prefixed_tok_ok(pfx_context(), b);
    }
}

/// Reads a lone target token, exactly as `spec_parse_target` says.
pub fn parse_target(token: &str) -> (r: Result<Target, HostSpecError>)
    ensures
        target_result_view(r) == spec_parse_target(token@),
{
    proof {
        lemma_literals();
    }
    let n: usize = token.unicode_len();
    if n == 0 {
        return Err(HostSpecError::InvalidFormat);
    }
    if starts_with_str(token, "pod--") {
        if n == 5 {
            return Err(HostSpecError::InvalidFormat);
        }
        return Ok(Target::Pod(String::from_str(token.substring_char(5, n))));
    }
    if starts_with_str(token, "deployment--") {
        if n == 12 {
            return Err(HostSpecError::InvalidFormat);
        }
        return Ok(Target::Deployment(String::from_str(token.substring_char(12, n))));
    }
    if starts_with_str(token, "job--") {
        if n == 5 {
            return Err(HostSpecError::InvalidFormat);
        }
        return Ok(Target::Job(String::from_str(token.substring_char(5, n))));
    }
    Err(HostSpecError::InvalidFormat)
}

/// Parses a hostname, exactly as `spec_parse` says.
pub fn parse(host: &str) -> (r: Result<HostSpec, HostSpecError>)
    ensures
        parse_result_view(r) == spec_parse(host@),
{
    proof {
        lemma_literals();
    }
    let trimmed: &str = trim_trailing(host, '.');
    if !ends_with_str(trimmed, ".sshpod") {
        return Err(HostSpecError::MissingSuffix);
    }
    let n: usize = trimmed.unicode_len();
    let body: &str = trimmed.substring_char(0, n - 7);
    let raw: Vec<String> = split_str(body, '.');
    let toks: Vec<String> = filter_nonempty(raw);
    let ghost tokviews = toks@.map_values(|t: String| t@);

    let mut context: Option<String> = None;
    let mut namespace: Option<String> = None;
    let mut target: Option<Target> = None;
    let mut container: Option<String> = None;

    let mut i: usize = 0;
    proof {
        assert(tokviews.skip(0) =~= tokviews);
    }
    while i < toks.len()
        invariant
            i <= toks@.len(),
            tokviews == toks@.map_values(|t: String| t@),
            spec_parse(host@) == parse_tokens(
                tokviews.skip(i as int),
                ParseAcc {
                    context: opt_view(context),
                    namespace: opt_view(namespace),
                    target: match target {
                        Option::Some(t) => Option::Some(t@),
                        Option::None => Option::None,
                    },
                    container: opt_view(container),
                },
            ),
        decreases toks@.len() - i,
    {
        proof {
            lemma_literals();
            assert(tokviews.skip(i as int).first() == tokviews[i as int]);
            assert(tokviews.skip(i as int).drop_first() =~= tokviews.skip(i + 1));
        }
        let tok: &String = &toks[i];
        let m: usize = tok.as_str().unicode_len();
        if !contains_str(tok.as_str(), "--") {
            return Err(HostSpecError::MissingSeparator { segment: tok.clone() });
        }
        if starts_with_str(tok.as_str(), "container--") {
            if m == 11 || container.is_some() {
                return Err(HostSpecError::InvalidFormat);
            }
            proof {
                assert(tok@.skip(11) == tok@.subrange(11, m as int));
            }
            container = Some(String::from_str(tok.as_str().substring_char(11, m)));
        } else if starts_with_str(tok.as_str(), "namespace--") {
            if m == 11 || namespace.is_some() {
                return Err(HostSpecError::InvalidFormat);
            }
            proof {
                assert(tok@.skip(11) == tok@.subrange(11, m as int));
            }
            namespace = Some(String::from_str(tok.as_str().substring_char(11, m)));
        } else if starts_with_str(tok.as_str(), "context--") {
            if m == 9 || context.is_some() {
                return Err(HostSpecError::InvalidFormat);
            }
            proof {
                assert(tok@.skip(9) == tok@.subrange(9, m as int));
            }
            context = Some(String::from_str(tok.as_str().substring_char(9, m)));
        } else if target.is_none() {
            match parse_target(tok.as_str()) {
                Ok(t) => {
                    target = Some(t);
                },
                Err(e) => {
                    return Err(e);
                },
            }
        } else {
            return Err(HostSpecError::InvalidFormat);
        }
        i += 1;
    }
    proof {
        assert(tokviews.skip(toks@.len() as int) =~= Seq::<Seq<char>>::empty());
    }
    match target {
        Some(t) => Ok(
            HostSpec { target: t, namespace, context, container },
        ),
        None => Err(HostSpecError::InvalidFormat),
    }
}

} // verus!
