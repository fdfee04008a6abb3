//! The transformer pipeline: column-level rules applied in-flight to dump
//! data during a backup.  A rule binds an exact `(database, table, column)`
//! triple to a deterministic transformation; skip rules exclude a table or a
//! single column from the dump entirely.  Resolution is by exact triple
//! match, skip rules are checked first, and everything else passes through
//! byte-identical.

use vstd::prelude::*;
use vstd::string::StrSliceExecFns;

verus! {

/// The transformations available to rules.  Each is a pure function of the
/// input value, so a fixed input and configuration give byte-identical
/// output across runs.
#[derive(Clone, Copy)]
pub enum TransformerKind {
    /// Replace the value by asterisks, one more than its length: the masked
    /// value is never empty and never equal to the original.
    Mask,
    /// Keep only the first character of the value.
    KeepFirstChar,
    /// Replace the value by a fixed redaction marker.
    Redacted,
}

/// What a transformation does to a column value.
pub open spec fn transform_spec(kind: TransformerKind, value: Seq<char>) -> Seq<char> {
    match kind {
        TransformerKind::Mask => Seq::new(value.len() + 1, |i: int| '*'),
        TransformerKind::KeepFirstChar => if value.len() == 0 {
            Seq::empty()
        } else {
            seq![value[0]]
        },
        TransformerKind::Redacted => seq!['*', '*', '*'],
    }
}

/// A masked value always differs from the original and is never empty.
pub proof fn lemma_mask_changes_value(value: Seq<char>)
    ensures
        transform_spec(TransformerKind::Mask, value) != value,
        transform_spec(TransformerKind::Mask, value).len() > 0,
{
    assert(transform_spec(TransformerKind::Mask, value).len() == value.len() + 1);
}

/// Apply one transformation to a value.
pub fn transform_value(kind: &TransformerKind, value: &String) -> (r: String)
    ensures
        r@ == transform_spec(*kind, value@),
{
    match kind {
        TransformerKind::Mask => {
            let n = value.as_str().unicode_len();
            let mut out = String::new();
            proof {
                reveal_strlit("*");
                assert("*"@ =~= seq!['*']);
            }
            out.append("*");
            assert(out@ =~= Seq::new(1nat, |k: int| '*'));
            let mut i: usize = 0;
            while i < n
                invariant
                    i <= n,
                    n == value@.len(),
                    "*"@ == seq!['*'],
                    out@ =~= Seq::new((i + 1) as nat, |k: int| '*'),
                decreases n - i,
            {
                out.append("*");
                assert(out@ =~= Seq::new((i + 2) as nat, |k: int| '*'));
                i = i + 1;
            }
            assert(out@ =~= transform_spec(TransformerKind::Mask, value@));
            out
        }
        TransformerKind::KeepFirstChar => {
            if value.as_str().unicode_len() == 0 {
                String::new()
            } else {
                let first = value.as_str().substring_char(0, 1);
                assert(first@ =~= seq![value@[0]]);
                first.to_owned()
            }
        }
        TransformerKind::Redacted => {
            proof {
                reveal_strlit("***");
                assert("***"@ =~= seq!['*', '*', '*']);
            }
            String::from_str("***")
        }
    }
}

impl TransformerKind {
    /// Stable identifier of the transformation.
    pub fn id(&self) -> (r: String)
        ensures
            self is Mask ==> r@ == "mask"@,
            self is KeepFirstChar ==> r@ == "keep-first-char"@,
            self is Redacted ==> r@ == "redacted"@,
    {
        match self {
            TransformerKind::Mask => String::from_str("mask"),
            TransformerKind::KeepFirstChar => String::from_str("keep-first-char"),
            TransformerKind::Redacted => String::from_str("redacted"),
        }
    }

    /// Human-readable description of the transformation.
    pub fn description(&self) -> (r: String)
        ensures
            self is Mask ==> r@ == "mask the value with asterisks"@,
            self is KeepFirstChar ==> r@ == "keep only the first character of the value"@,
            self is Redacted ==> r@ == "replace the value with a fixed marker"@,
    {
        match self {
            TransformerKind::Mask => String::from_str("mask the value with asterisks"),
            TransformerKind::KeepFirstChar => String::from_str(
                "keep only the first character of the value",
            ),
            TransformerKind::Redacted => String::from_str("replace the value with a fixed marker"),
        }
    }
}

/// The full catalog of available transformations, for discovery; this has no
/// effect on transfer behaviour.
pub fn transformers() -> (r: Vec<TransformerKind>)
    ensures
        r@ == seq![
            TransformerKind::Mask,
            TransformerKind::KeepFirstChar,
            TransformerKind::Redacted,
        ],
{
    let mut v: Vec<TransformerKind> = Vec::new();
    v.push(TransformerKind::Mask);
    v.push(TransformerKind::KeepFirstChar);
    v.push(TransformerKind::Redacted);
    proof {
        assert(v@ =~= seq![
            TransformerKind::Mask,
            TransformerKind::KeepFirstChar,
            TransformerKind::Redacted,
        ]);
    }
    v
}

/// The rows of the transformer listing: each available transformation with
/// its identifier and description.
pub fn list_transformers() -> (r: Vec<(String, String)>)
    ensures
        r@.len() == 3,
        r@[0].0@ == "mask"@ && r@[0].1@ == "mask the value with asterisks"@,
        r@[1].0@ == "keep-first-char"@ && r@[1].1@
            == "keep only the first character of the value"@,
        r@[2].0@ == "redacted"@ && r@[2].1@ == "replace the value with a fixed marker"@,
{
    let mut rows: Vec<(String, String)> = Vec::new();
    let mask = TransformerKind::Mask;
    rows.push((mask.id(), mask.description()));
    let keep_first = TransformerKind::KeepFirstChar;
    rows.push((keep_first.id(), keep_first.description()));
    let redacted = TransformerKind::Redacted;
    rows.push((redacted.id(), redacted.description()));
    rows
}

/// Binds one fully-qualified column to a transformation.
pub struct TransformerRule {
    pub database: String,
    pub table: String,
    pub column: String,
    pub kind: TransformerKind,
}

/// Excludes a whole table, or one column, from the dump stream.
pub struct SkipRule {
    pub database: String,
    pub table: String,
    pub column: Option<String>,
}

/// One parsed unit of dump data: a column value with its full address.
pub struct DumpUnit {
    pub database: String,
    pub table: String,
    pub column: String,
    pub value: String,
}

impl Clone for DumpUnit {
    fn clone(&self) -> (r: Self)
        ensures
            r == *self,
    {
        DumpUnit {
            database: self.database.clone(),
            table: self.table.clone(),
            column: self.column.clone(),
            value: self.value.clone(),
        }
    }
}

/// Does a transform rule address exactly this column?
pub open spec fn rule_matches(
    rule: TransformerRule,
    database: Seq<char>,
    table: Seq<char>,
    column: Seq<char>,
) -> bool {
    rule.database@ == database && rule.table@ == table && rule.column@ == column
}

/// Does a skip rule cover this column (whole table, or the exact column)?
pub open spec fn skip_matches(
    rule: SkipRule,
    database: Seq<char>,
    table: Seq<char>,
    column: Seq<char>,
) -> bool {
    rule.database@ == database && rule.table@ == table && match rule.column {
        Some(c) => c@ == column,
        None => true,
    }
}

/// Is this column excluded by any configured skip rule?
pub open spec fn skipped(
    skip: Seq<SkipRule>,
    database: Seq<char>,
    table: Seq<char>,
    column: Seq<char>,
) -> bool {
    exists|i: int| 0 <= i < skip.len() && skip_matches(#[trigger] skip[i], database, table, column)
}

/// The transformation bound to this column by the first matching rule.
pub open spec fn find_rule(
    rules: Seq<TransformerRule>,
    database: Seq<char>,
    table: Seq<char>,
    column: Seq<char>,
) -> Option<TransformerKind>
    decreases rules.len(),
{
    if rules.len() == 0 {
        None
    } else if rule_matches(rules[0], database, table, column) {
        Some(rules[0].kind)
    } else {
        find_rule(rules.skip(1), database, table, column)
    }
}

proof fn lemma_find_rule_at(
    rules: Seq<TransformerRule>,
    database: Seq<char>,
    table: Seq<char>,
    column: Seq<char>,
    i: int,
)
    requires
        0 <= i < rules.len(),
        rule_matches(rules[i], database, table, column),
        forall|j: int| 0 <= j < i ==> !rule_matches(#[trigger] rules[j], database, table, column),
    ensures
        find_rule(rules, database, table, column) == Some(rules[i].kind),
    decreases i,
{
    if i == 0 {
    } else {
        assert(rules.skip(1)[i - 1] == rules[i]);
        assert(forall|j: int|
            0 <= j < i - 1 ==> #[trigger] rules.skip(1)[j] == rules[j + 1]);
        lemma_find_rule_at(rules.skip(1), database, table, column, i - 1);
    }
}

proof fn lemma_find_rule_none(
    rules: Seq<TransformerRule>,
    database: Seq<char>,
    table: Seq<char>,
    column: Seq<char>,
)
    requires
        forall|j: int|
            0 <= j < rules.len() ==> !rule_matches(#[trigger] rules[j], database, table, column),
    ensures
        find_rule(rules, database, table, column) is None,
    decreases rules.len(),
{
    if rules.len() > 0 {
        assert(forall|j: int|
            0 <= j < rules.len() - 1 ==> #[trigger] rules.skip(1)[j] == rules[j + 1]);
        lemma_find_rule_none(rules.skip(1), database, table, column);
    }
}

/// Two rules address the same fully-qualified column.
pub open spec fn same_triple(a: TransformerRule, b: TransformerRule) -> bool {
    a.database@ == b.database@ && a.table@ == b.table@ && a.column@ == b.column@
}

/// At most one rule applies per fully-qualified column.
pub open spec fn unique_rules(rules: Seq<TransformerRule>) -> bool {
    forall|i: int, j: int|
        0 <= i < j < rules.len() ==> !same_triple(#[trigger] rules[i], #[trigger] rules[j])
}

/// Under the one-rule-per-column invariant, whichever rule matches a column
/// is the rule the pipeline resolves to: resolution is by exact triple
/// match and cannot pick another rule.
pub proof fn lemma_unique_rule_resolution(
    rules: Seq<TransformerRule>,
    database: Seq<char>,
    table: Seq<char>,
    column: Seq<char>,
    i: int,
)
    requires
        unique_rules(rules),
        0 <= i < rules.len(),
        rule_matches(rules[i], database, table, column),
    ensures
        find_rule(rules, database, table, column) == Some(rules[i].kind),
{
    assert forall|j: int| 0 <= j < i implies !rule_matches(
        #[trigger] rules[j],
        database,
        table,
        column,
    ) by {
        if rule_matches(rules[j], database, table, column) {
            assert(same_triple(rules[j], rules[i]));
        }
    }
    lemma_find_rule_at(rules, database, table, column, i);
}

/// What the pipeline does to one unit: skipped units are omitted, a matching
/// rule's transformation is applied exactly once, everything else passes
/// through unchanged.
pub open spec fn pipeline_unit_spec(
    skip: Seq<SkipRule>,
    rules: Seq<TransformerRule>,
    unit: DumpUnit,
) -> Option<Seq<char>> {
    if skipped(skip, unit.database@, unit.table@, unit.column@) {
        None
    } else {
        match find_rule(rules, unit.database@, unit.table@, unit.column@) {
            Some(kind) => Some(transform_spec(kind, unit.value@)),
            None => Some(unit.value@),
        }
    }
}

/// The resolved transformer pipeline for one run: built once from the
/// configured rules, immutable while the run lasts.
pub struct TransformerPipeline {
    pub rules: Vec<TransformerRule>,
    pub skip: Vec<SkipRule>,
}

impl TransformerPipeline {
    pub fn new(rules: Vec<TransformerRule>, skip: Vec<SkipRule>) -> (r: Self)
        ensures
            r.rules@ == rules@,
            r.skip@ == skip@,
    {
        TransformerPipeline { rules, skip }
    }

    /// Apply the pipeline to one dump unit.  `None` means the unit is
    /// excluded from the output stream entirely.
    pub fn apply_unit(&self, unit: &DumpUnit) -> (r: Option<DumpUnit>)
        ensures
            match r {
                None => pipeline_unit_spec(self.skip@, self.rules@, *unit) is None,
                Some(out) => {
                    &&& pipeline_unit_spec(self.skip@, self.rules@, *unit) == Some(out.value@)
                    &&& out.database@ == unit.database@
                    &&& out.table@ == unit.table@
                    &&& out.column@ == unit.column@
                },
            },
    {
        let mut i: usize = 0;
        while i < self.skip.len()
            invariant
                i <= self.skip.len(),
                forall|j: int|
                    0 <= j < i ==> !skip_matches(
                        #[trigger] self.skip@[j],
                        unit.database@,
                        unit.table@,
                        unit.column@,
                    ),
            decreases self.skip.len() - i,
        {
            let s = &self.skip[i];
            let db_match = s.database == unit.database && s.table == unit.table;
            let col_match = match &s.column {
                Some(c) => *c == unit.column,
                None => true,
            };
            if db_match && col_match {
                assert(skip_matches(
                    self.skip@[i as int],
                    unit.database@,
                    unit.table@,
                    unit.column@,
                ));
                return None;
            }
            i = i + 1;
        }
        assert(!skipped(self.skip@, unit.database@, unit.table@, unit.column@));
        let mut k: usize = 0;
        while k < self.rules.len()
            invariant
                k <= self.rules.len(),
                forall|j: int|
                    0 <= j < k ==> !rule_matches(
                        #[trigger] self.rules@[j],
                        unit.database@,
                        unit.table@,
                        unit.column@,
                    ),
                !skipped(self.skip@, unit.database@, unit.table@, unit.column@),
            decreases self.rules.len() - k,
        {
            let rule = &self.rules[k];
            if rule.database == unit.database && rule.table == unit.table && rule.column
                == unit.column {
                proof {
                    lemma_find_rule_at(
                        self.rules@,
                        unit.database@,
                        unit.table@,
                        unit.column@,
                        k as int,
                    );
                }
                return Some(
                    DumpUnit {
                        database: unit.database.clone(),
                        table: unit.table.clone(),
                        column: unit.column.clone(),
                        value: transform_value(&rule.kind, &unit.value),
                    },
                );
            }
            k = k + 1;
        }
        proof {
            lemma_find_rule_none(self.rules@, unit.database@, unit.table@, unit.column@);
        }
        Some(unit.clone())
    }
}

/// The address and value of a unit, as plain sequences.
pub open spec fn unit_view(u: DumpUnit) -> (Seq<char>, Seq<char>, Seq<char>, Seq<char>) {
    (u.database@, u.table@, u.column@, u.value@)
}

/// The views of a whole unit stream.
pub open spec fn unit_views(units: Seq<DumpUnit>) -> Seq<
    (Seq<char>, Seq<char>, Seq<char>, Seq<char>),
> {
    units.map_values(|u: DumpUnit| unit_view(u))
}

/// The pipeline's image of a unit stream, in order: skipped units are
/// absent, units with a matching rule carry the transformed value, all
/// others pass through byte-identical.
pub open spec fn pipeline_stream_spec(
    skip: Seq<SkipRule>,
    rules: Seq<TransformerRule>,
    views: Seq<(Seq<char>, Seq<char>, Seq<char>, Seq<char>)>,
) -> Seq<(Seq<char>, Seq<char>, Seq<char>, Seq<char>)>
    decreases views.len(),
{
    if views.len() == 0 {
        Seq::empty()
    } else {
        let (d, t, c, v) = views[0];
        let rest = pipeline_stream_spec(skip, rules, views.skip(1));
        if skipped(skip, d, t, c) {
            rest
        } else {
            let w = match find_rule(rules, d, t, c) {
                Some(kind) => transform_spec(kind, v),
                None => v,
            };
            seq![(d, t, c, w)] + rest
        }
    }
}

impl TransformerPipeline {
    /// Apply the pipeline to an ordered unit stream: the output is exactly
    /// the pipeline's image of the input, in the input's order.
    pub fn apply_stream(&self, units: &Vec<DumpUnit>) -> (r: Vec<DumpUnit>)
        ensures
            unit_views(r@) == pipeline_stream_spec(self.skip@, self.rules@, unit_views(units@)),
    {
        let ghost vs = unit_views(units@);
        let mut out: Vec<DumpUnit> = Vec::new();
        let mut i: usize = 0;
        proof {
            assert(vs.skip(0) =~= vs);
        }
        while i < units.len()
            invariant
                i <= units.len(),
                vs == unit_views(units@),
                vs.len() == units@.len(),
                unit_views(out@) + pipeline_stream_spec(self.skip@, self.rules@, vs.skip(i as int))
                    =~= pipeline_stream_spec(self.skip@, self.rules@, vs),
            decreases units.len() - i,
        {
            let ghost tail = vs.skip(i as int);
            proof {
                assert(tail[0] == unit_view(units@[i as int]));
                assert(tail.skip(1) =~= vs.skip(i + 1));
            }
            match self.apply_unit(&units[i]) {
                Some(u) => {
                    proof {
                        assert(!skipped(self.skip@, units@[i as int].database@, units@[
                            i as int
                        ].table@, units@[i as int].column@));
                    }
                    out.push(u);
                    proof {
                        assert(unit_views(out@) =~= unit_views(out@.drop_last()).push(
                            unit_view(u),
                        ));
                        assert(unit_views(out@) + pipeline_stream_spec(
                            self.skip@,
                            self.rules@,
                            vs.skip(i + 1),
                        ) =~= pipeline_stream_spec(self.skip@, self.rules@, vs));
                    }
                }
                None => {
                    proof {
                        assert(skipped(self.skip@, units@[i as int].database@, units@[
                            i as int
                        ].table@, units@[i as int].column@));
                        assert(unit_views(out@) + pipeline_stream_spec(
                            self.skip@,
                            self.rules@,
                            vs.skip(i + 1),
                        ) =~= pipeline_stream_spec(self.skip@, self.rules@, vs));
                    }
                }
            }
            i = i + 1;
        }
        proof {
            assert(vs.skip(vs.len() as int) =~= Seq::<
                (Seq<char>, Seq<char>, Seq<char>, Seq<char>),
            >::empty());
            assert(unit_views(out@) =~= pipeline_stream_spec(self.skip@, self.rules@, vs));
        }
        out
    }
}

} // verus!
