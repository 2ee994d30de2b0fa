//! Query-time structures: result columns, relation bindings and the
//! per-statement resolution scope.
//!
//! A scope maps aliases to relations, remembers which aliases an outer
//! join made nullable, and carries the CTE definitions in scope. Alias and
//! CTE keys are stored case-folded; every lookup folds its argument, so a
//! scope answers the same whatever the spelling.
use vstd::prelude::*;
use crate::text::{same_ident, fold_seq, eq_fold, fold_string};
use crate::types::{RustType, LTy};

verus! {

/// One column of a validated query's result: its name (case preserved)
/// and its logical type.
#[derive(Debug)]
pub struct QueryColumn {
    pub name: String,
    pub rust_type: RustType,
}

/// Mathematical value of a `QueryColumn`.
#[verifier::ext_equal]
pub struct QColV {
    pub name: Seq<char>,
    pub rust_type: LTy,
}

impl View for QueryColumn {
    type V = QColV;

    open spec fn view(&self) -> QColV {
        QColV { name: self.name@, rust_type: self.rust_type@ }
    }
}

/// The views of a sequence of result columns.
pub open spec fn qcols_view(cols: Seq<QueryColumn>) -> Seq<QColV> {
    cols.map_values(|c: QueryColumn| c@)
}

/// The result of validating a query: the inferred columns, in order.
#[derive(Debug)]
pub struct QueryResult {
    pub columns: Vec<QueryColumn>,
}

impl View for QueryResult {
    type V = Seq<QColV>;

    open spec fn view(&self) -> Seq<QColV> {
        qcols_view(self.columns@)
    }
}

impl QueryColumn {
    /// A fresh column with the same mathematical content.
    pub fn duplicate(&self) -> (r: QueryColumn)
        ensures r@ == self@,
    {
        QueryColumn { name: self.name.clone(), rust_type: self.rust_type.duplicate() }
    }
}

/// A fresh column list with the same mathematical content.
pub fn duplicate_columns(cols: &Vec<QueryColumn>) -> (r: Vec<QueryColumn>)
    ensures qcols_view(r@) == qcols_view(cols@),
{
    let n = cols.len();
    let mut out: Vec<QueryColumn> = Vec::new();
    proof {
        assert(qcols_view(out@) =~= qcols_view(cols@).take(0));
    }
    let mut i: usize = 0;
    while i < n
        invariant
            i <= n,
            n == cols@.len(),
            qcols_view(out@) == qcols_view(cols@).take(i as int),
        decreases n - i,
    {
        let c = cols[i].duplicate();
        let ghost prev = out@;
        let ghost cv = c@;
        out.push(c);
        proof {
            assert(qcols_view(out@) =~= qcols_view(prev).push(cv));
            assert(qcols_view(cols@).take(i + 1) =~= qcols_view(cols@).take(i as int).push(
                qcols_view(cols@)[i as int],
            ));
        }
        i = i + 1;
    }
    proof {
        assert(qcols_view(cols@).take(n as int) =~= qcols_view(cols@));
    }
    out
}

/// A fresh CTE binding list with the same mathematical content.
pub fn duplicate_ctes(src: &Vec<CteBinding>) -> (r: Vec<CteBinding>)
    ensures ctes_view(r@) == ctes_view(src@),
{
    let n = src.len();
    let mut out: Vec<CteBinding> = Vec::new();
    proof {
        assert(ctes_view(out@) =~= ctes_view(src@).take(0));
    }
    let mut i: usize = 0;
    while i < n
        invariant
            i <= n,
            n == src@.len(),
            ctes_view(out@) == ctes_view(src@).take(i as int),
        decreases n - i,
    {
        let b = CteBinding {
            name: src[i].name.clone(),
            columns: duplicate_columns(&src[i].columns),
        };
        let ghost prev = out@;
        let ghost bv = b@;
        out.push(b);
        proof {
            assert(ctes_view(out@) =~= ctes_view(prev).push(bv));
            assert(ctes_view(src@).take(i + 1) =~= ctes_view(src@).take(i as int).push(
                ctes_view(src@)[i as int],
            ));
        }
        i = i + 1;
    }
    proof {
        assert(ctes_view(src@).take(n as int) =~= ctes_view(src@));
    }
    out
}

/// What an alias in scope stands for.
#[derive(Debug)]
pub enum RelationRef {
    /// A table of the schema, by its catalog name.
    SchemaTable(String),
    /// A CTE in scope, by its folded name.
    Cte(String),
    /// A derived table the validator does not look into.
    Opaque,
}

/// Mathematical value of a `RelationRef`.
pub enum RelV {
    SchemaTable(Seq<char>),
    Cte(Seq<char>),
    Opaque,
}

impl View for RelationRef {
    type V = RelV;

    open spec fn view(&self) -> RelV {
        match self {
            RelationRef::SchemaTable(n) => RelV::SchemaTable(n@),
            RelationRef::Cte(n) => RelV::Cte(n@),
            RelationRef::Opaque => RelV::Opaque,
        }
    }
}

/// One alias binding of the scope; the key is stored case-folded.
#[derive(Debug)]
pub struct AliasBinding {
    pub key: String,
    pub target: RelationRef,
}

/// Mathematical value of an `AliasBinding`.
#[verifier::ext_equal]
pub struct ABV {
    pub key: Seq<char>,
    pub target: RelV,
}

impl View for AliasBinding {
    type V = ABV;

    open spec fn view(&self) -> ABV {
        ABV { key: self.key@, target: self.target@ }
    }
}

/// One CTE visible in scope: its folded name and its inferred columns.
#[derive(Debug)]
pub struct CteBinding {
    pub name: String,
    pub columns: Vec<QueryColumn>,
}

/// Mathematical value of a `CteBinding`.
#[verifier::ext_equal]
pub struct CBV {
    pub name: Seq<char>,
    pub columns: Seq<QColV>,
}

impl View for CteBinding {
    type V = CBV;

    open spec fn view(&self) -> CBV {
        CBV { name: self.name@, columns: qcols_view(self.columns@) }
    }
}

/// The per-statement scope.
#[derive(Debug)]
pub struct ResolveContext {
    pub aliases: Vec<AliasBinding>,
    pub nullable_aliases: Vec<String>,
    pub ctes: Vec<CteBinding>,
}

/// Mathematical value of a `ResolveContext`.
#[verifier::ext_equal]
pub struct CtxV {
    pub aliases: Seq<ABV>,
    pub nullable: Seq<Seq<char>>,
    pub ctes: Seq<CBV>,
}

pub open spec fn aliases_view(s: Seq<AliasBinding>) -> Seq<ABV> {
    s.map_values(|a: AliasBinding| a@)
}

pub open spec fn nullable_view(s: Seq<String>) -> Seq<Seq<char>> {
    s.map_values(|n: String| n@)
}

pub open spec fn ctes_view(s: Seq<CteBinding>) -> Seq<CBV> {
    s.map_values(|c: CteBinding| c@)
}

impl View for ResolveContext {
    type V = CtxV;

    open spec fn view(&self) -> CtxV {
        CtxV {
            aliases: aliases_view(self.aliases@),
            nullable: nullable_view(self.nullable_aliases@),
            ctes: ctes_view(self.ctes@),
        }
    }
}

// ---------------------------------------------------------------------------
// Lookups over the scope's mathematical value
// ---------------------------------------------------------------------------

/// First result column with this name, case-insensitively.
pub open spec fn find_qcol(cols: Seq<QColV>, name: Seq<char>) -> Option<int>
    decreases cols.len(),
{
    if cols.len() == 0 {
        None
    } else if same_ident(cols[0].name, name) {
        Some(0)
    } else {
        match find_qcol(cols.drop_first(), name) {
            Some(i) => Some(i + 1),
            None => None,
        }
    }
}

/// First alias binding whose key folds like `name`.
pub open spec fn lookup_alias_spec(aliases: Seq<ABV>, name: Seq<char>) -> Option<int>
    decreases aliases.len(),
{
    if aliases.len() == 0 {
        None
    } else if same_ident(aliases[0].key, name) {
        Some(0)
    } else {
        match lookup_alias_spec(aliases.drop_first(), name) {
            Some(i) => Some(i + 1),
            None => None,
        }
    }
}

/// First CTE whose name folds like `name`.
pub open spec fn lookup_cte_spec(ctes: Seq<CBV>, name: Seq<char>) -> Option<int>
    decreases ctes.len(),
{
    if ctes.len() == 0 {
        None
    } else if same_ident(ctes[0].name, name) {
        Some(0)
    } else {
        match lookup_cte_spec(ctes.drop_first(), name) {
            Some(i) => Some(i + 1),
            None => None,
        }
    }
}

/// Is this alias marked nullable?
pub open spec fn is_marked_nullable(nullable: Seq<Seq<char>>, name: Seq<char>) -> bool
    decreases nullable.len(),
{
    if nullable.len() == 0 {
        false
    } else {
        same_ident(nullable[0], name) || is_marked_nullable(nullable.drop_first(), name)
    }
}

/// The scope after binding `key` to `target`: an existing binding of the
/// same folded key is replaced, else the binding is appended.
pub open spec fn add_alias_spec(aliases: Seq<ABV>, key: Seq<char>, target: RelV) -> Seq<ABV> {
    let b = ABV { key: fold_seq(key), target: target };
    match lookup_alias_spec(aliases, key) {
        Some(i) => aliases.update(i, b),
        None => aliases.push(b),
    }
}

/// The nullable marks after marking `name`; marking twice changes nothing.
pub open spec fn mark_nullable_spec(nullable: Seq<Seq<char>>, name: Seq<char>) -> Seq<Seq<char>> {
    if is_marked_nullable(nullable, name) {
        nullable
    } else {
        nullable.push(fold_seq(name))
    }
}

/// The CTE list after recording `name`; a CTE of the same folded name is
/// replaced.
pub open spec fn add_cte_spec(ctes: Seq<CBV>, name: Seq<char>, columns: Seq<QColV>) -> Seq<CBV> {
    let b = CBV { name: fold_seq(name), columns: columns };
    match lookup_cte_spec(ctes, name) {
        Some(i) => ctes.update(i, b),
        None => ctes.push(b),
    }
}

pub proof fn lemma_find_qcol_props(cols: Seq<QColV>, name: Seq<char>)
    ensures
        find_qcol(cols, name) matches Some(i) ==> 0 <= i < cols.len()
            && same_ident(cols[i].name, name),
        find_qcol(cols, name) is None ==> forall|j: int|
            0 <= j < cols.len() ==> !same_ident(#[trigger] cols[j].name, name),
    decreases cols.len(),
{
    if cols.len() > 0 && !same_ident(cols[0].name, name) {
        lemma_find_qcol_props(cols.drop_first(), name);
        if find_qcol(cols, name) is None {
            assert forall|j: int| 0 <= j < cols.len() implies !same_ident(
                #[trigger] cols[j].name,
                name,
            ) by {
                if j > 0 {
                    assert(cols.drop_first()[j - 1] == cols[j]);
                }
            }
        }
    }
}

pub proof fn lemma_lookup_alias_props(aliases: Seq<ABV>, name: Seq<char>)
    ensures
        lookup_alias_spec(aliases, name) matches Some(i) ==> 0 <= i < aliases.len()
            && same_ident(aliases[i].key, name),
    decreases aliases.len(),
{
    if aliases.len() > 0 && !same_ident(aliases[0].key, name) {
        lemma_lookup_alias_props(aliases.drop_first(), name);
    }
}

pub proof fn lemma_lookup_cte_props(ctes: Seq<CBV>, name: Seq<char>)
    ensures
        lookup_cte_spec(ctes, name) matches Some(i) ==> 0 <= i < ctes.len()
            && same_ident(ctes[i].name, name),
    decreases ctes.len(),
{
    if ctes.len() > 0 && !same_ident(ctes[0].name, name) {
        lemma_lookup_cte_props(ctes.drop_first(), name);
    }
}

proof fn lemma_find_qcol_iter(cols: Seq<QColV>, name: Seq<char>, i: int)
    requires
        0 <= i <= cols.len(),
        forall|j: int| 0 <= j < i ==> !same_ident(#[trigger] cols[j].name, name),
        i == cols.len() || same_ident(cols[i].name, name),
    ensures find_qcol(cols, name) == if i == cols.len() { None } else { Some(i) },
    decreases i,
{
    if cols.len() == 0 {
    } else if i == 0 {
    } else {
        lemma_find_qcol_iter(cols.drop_first(), name, i - 1);
    }
}

proof fn lemma_lookup_alias_iter(aliases: Seq<ABV>, name: Seq<char>, i: int)
    requires
        0 <= i <= aliases.len(),
        forall|j: int| 0 <= j < i ==> !same_ident(#[trigger] aliases[j].key, name),
        i == aliases.len() || same_ident(aliases[i].key, name),
    ensures lookup_alias_spec(aliases, name) == if i == aliases.len() { None } else { Some(i) },
    decreases i,
{
    if aliases.len() == 0 {
    } else if i == 0 {
    } else {
        lemma_lookup_alias_iter(aliases.drop_first(), name, i - 1);
    }
}

proof fn lemma_lookup_cte_iter(ctes: Seq<CBV>, name: Seq<char>, i: int)
    requires
        0 <= i <= ctes.len(),
        forall|j: int| 0 <= j < i ==> !same_ident(#[trigger] ctes[j].name, name),
        i == ctes.len() || same_ident(ctes[i].name, name),
    ensures lookup_cte_spec(ctes, name) == if i == ctes.len() { None } else { Some(i) },
    decreases i,
{
    if ctes.len() == 0 {
    } else if i == 0 {
    } else {
        lemma_lookup_cte_iter(ctes.drop_first(), name, i - 1);
    }
}

proof fn lemma_is_marked_iter(nullable: Seq<Seq<char>>, name: Seq<char>, i: int)
    requires
        0 <= i <= nullable.len(),
        forall|j: int| 0 <= j < i ==> !same_ident(#[trigger] nullable[j], name),
        i == nullable.len() || same_ident(nullable[i], name),
    ensures is_marked_nullable(nullable, name) == (i < nullable.len()),
    decreases i,
{
    if nullable.len() == 0 {
    } else if i == 0 {
        if i < nullable.len() {
        } else {
        }
    } else {
        lemma_is_marked_iter(nullable.drop_first(), name, i - 1);
    }
}

proof fn lemma_is_marked_elem(nullable: Seq<Seq<char>>, name: Seq<char>, i: int)
    requires 0 <= i < nullable.len(), same_ident(nullable[i], name),
    ensures is_marked_nullable(nullable, name),
    decreases i,
{
    if i > 0 {
        lemma_is_marked_elem(nullable.drop_first(), name, i - 1);
    }
}

// ---------------------------------------------------------------------------
// Executable lookups
// ---------------------------------------------------------------------------

/// Index of the first result column named `name`, case-insensitively.
pub fn find_query_column(cols: &Vec<QueryColumn>, name: &str) -> (r: Option<usize>)
    ensures
        r matches Some(i) ==> find_qcol(qcols_view(cols@), name@) == Some(i as int),
        r is None ==> find_qcol(qcols_view(cols@), name@) is None,
{
    let n = cols.len();
    let mut i: usize = 0;
    while i < n
        invariant
            i <= n,
            n == cols@.len(),
            forall|j: int| 0 <= j < i ==> !same_ident(#[trigger] qcols_view(cols@)[j].name, name@),
        decreases n - i,
    {
        if eq_fold(cols[i].name.as_str(), name) {
            proof {
                lemma_find_qcol_iter(qcols_view(cols@), name@, i as int);
            }
            return Some(i);
        }
        i = i + 1;
    }
    proof {
        lemma_find_qcol_iter(qcols_view(cols@), name@, n as int);
    }
    None
}

impl ResolveContext {
    /// An empty scope.
    pub fn new() -> (r: ResolveContext)
        ensures
            r@.aliases == Seq::<ABV>::empty(),
            r@.nullable == Seq::<Seq<char>>::empty(),
            r@.ctes == Seq::<CBV>::empty(),
    {
        let r = ResolveContext { aliases: Vec::new(), nullable_aliases: Vec::new(), ctes: Vec::new() };
        proof {
            assert(r@.aliases =~= Seq::<ABV>::empty());
            assert(r@.nullable =~= Seq::<Seq<char>>::empty());
            assert(r@.ctes =~= Seq::<CBV>::empty());
        }
        r
    }

    /// Is this alias marked nullable by some outer join?
    pub fn is_nullable_table(&self, table: &str) -> (r: bool)
        ensures r == is_marked_nullable(self@.nullable, table@),
    {
        let n = self.nullable_aliases.len();
        let mut i: usize = 0;
        while i < n
            invariant
                i <= n,
                n == self.nullable_aliases@.len(),
                forall|j: int| 0 <= j < i ==> !same_ident(
                    #[trigger] nullable_view(self.nullable_aliases@)[j],
                    table@,
                ),
            decreases n - i,
        {
            if eq_fold(self.nullable_aliases[i].as_str(), table) {
                proof {
                    lemma_is_marked_elem(self@.nullable, table@, i as int);
                }
                return true;
            }
            i = i + 1;
        }
        proof {
            lemma_is_marked_iter(self@.nullable, table@, n as int);
        }
        false
    }

    /// Mark an alias nullable. Marking is idempotent.
    pub fn mark_nullable(&mut self, table: &str)
        ensures
            final(self)@.nullable == mark_nullable_spec(old(self)@.nullable, table@),
            final(self)@.aliases == old(self)@.aliases,
            final(self)@.ctes == old(self)@.ctes,
    {
        if !self.is_nullable_table(table) {
            let folded = fold_string(table);
            let ghost prev = nullable_view(self.nullable_aliases@);
            self.nullable_aliases.push(folded);
            proof {
                assert(nullable_view(self.nullable_aliases@) =~= prev.push(fold_seq(table@)));
            }
        }
    }

    /// The CTE binding named `name`, if one is in scope.
    pub fn get_cte<'a>(&'a self, name: &str) -> (r: Option<&'a CteBinding>)
        ensures
            r matches Some(c) ==> (lookup_cte_spec(self@.ctes, name@) matches Some(i)
                && c@ == self@.ctes[i]),
            r is None ==> lookup_cte_spec(self@.ctes, name@) is None,
    {
        let n = self.ctes.len();
        let mut i: usize = 0;
        while i < n
            invariant
                i <= n,
                n == self.ctes@.len(),
                forall|j: int| 0 <= j < i ==> !same_ident(
                    #[trigger] ctes_view(self.ctes@)[j].name,
                    name@,
                ),
            decreases n - i,
        {
            if eq_fold(self.ctes[i].name.as_str(), name) {
                proof {
                    lemma_lookup_cte_iter(self@.ctes, name@, i as int);
                }
                return Some(&self.ctes[i]);
            }
            i = i + 1;
        }
        proof {
            lemma_lookup_cte_iter(self@.ctes, name@, n as int);
        }
        None
    }

    /// Record a CTE under its folded name, replacing one of the same name.
    pub fn add_cte(&mut self, name: &str, columns: Vec<QueryColumn>)
        ensures
            final(self)@.ctes == add_cte_spec(old(self)@.ctes, name@, qcols_view(columns@)),
            final(self)@.aliases == old(self)@.aliases,
            final(self)@.nullable == old(self)@.nullable,
    {
        let folded = fold_string(name);
        let ghost cv = qcols_view(columns@);
        let b = CteBinding { name: folded, columns };
        let ghost prev = ctes_view(self.ctes@);
        match self.lookup_cte_index(name) {
            Some(i) => {
                proof {
                    lemma_lookup_cte_props(self@.ctes, name@);
                }
                self.ctes[i] = b;
                proof {
                    assert(ctes_view(self.ctes@) =~= prev.update(
                        i as int,
                        CBV { name: fold_seq(name@), columns: cv },
                    ));
                }
            }
            None => {
                self.ctes.push(b);
                proof {
                    assert(ctes_view(self.ctes@) =~= prev.push(
                        CBV { name: fold_seq(name@), columns: cv },
                    ));
                }
            }
        }
    }

    /// Index of the CTE named `name`, if any.
    fn lookup_cte_index(&self, name: &str) -> (r: Option<usize>)
        ensures
            r matches Some(i) ==> lookup_cte_spec(self@.ctes, name@) == Some(i as int),
            r is None ==> lookup_cte_spec(self@.ctes, name@) is None,
    {
        let n = self.ctes.len();
        let mut i: usize = 0;
        while i < n
            invariant
                i <= n,
                n == self.ctes@.len(),
                forall|j: int| 0 <= j < i ==> !same_ident(
                    #[trigger] ctes_view(self.ctes@)[j].name,
                    name@,
                ),
            decreases n - i,
        {
            if eq_fold(self.ctes[i].name.as_str(), name) {
                proof {
                    lemma_lookup_cte_iter(self@.ctes, name@, i as int);
                }
                return Some(i);
            }
            i = i + 1;
        }
        proof {
            lemma_lookup_cte_iter(self@.ctes, name@, n as int);
        }
        None
    }

    /// Index of the alias binding whose key folds like `name`, if any.
    pub fn lookup_alias_index(&self, name: &str) -> (r: Option<usize>)
        ensures
            r matches Some(i) ==> lookup_alias_spec(self@.aliases, name@) == Some(i as int),
            r is None ==> lookup_alias_spec(self@.aliases, name@) is None,
    {
        let n = self.aliases.len();
        let mut i: usize = 0;
        while i < n
            invariant
                i <= n,
                n == self.aliases@.len(),
                forall|j: int| 0 <= j < i ==> !same_ident(
                    #[trigger] aliases_view(self.aliases@)[j].key,
                    name@,
                ),
            decreases n - i,
        {
            if eq_fold(self.aliases[i].key.as_str(), name) {
                proof {
                    lemma_lookup_alias_iter(self@.aliases, name@, i as int);
                }
                return Some(i);
            }
            i = i + 1;
        }
        proof {
            lemma_lookup_alias_iter(self@.aliases, name@, n as int);
        }
        None
    }

    /// The relation bound to `name`, if any.
    pub fn lookup_alias<'a>(&'a self, name: &str) -> (r: Option<&'a RelationRef>)
        ensures
            r matches Some(t) ==> (lookup_alias_spec(self@.aliases, name@) matches Some(i)
                && t@ == self@.aliases[i].target),
            r is None ==> lookup_alias_spec(self@.aliases, name@) is None,
    {
        match self.lookup_alias_index(name) {
            Some(i) => {
                proof {
                    lemma_lookup_alias_props(self@.aliases, name@);
                }
                Some(&self.aliases[i].target)
            }
            None => None,
        }
    }

    /// Bind `key` to `target`, replacing a binding of the same folded key.
    pub fn add_alias(&mut self, key: &str, target: RelationRef)
        ensures
            final(self)@.aliases == add_alias_spec(old(self)@.aliases, key@, target@),
            final(self)@.nullable == old(self)@.nullable,
            final(self)@.ctes == old(self)@.ctes,
    {
        let folded = fold_string(key);
        let ghost tv = target@;
        let b = AliasBinding { key: folded, target };
        let ghost prev = aliases_view(self.aliases@);
        match self.lookup_alias_index(key) {
            Some(i) => {
                proof {
                    lemma_lookup_alias_props(self@.aliases, key@);
                }
                self.aliases[i] = b;
                proof {
                    assert(aliases_view(self.aliases@) =~= prev.update(
                        i as int,
                        ABV { key: fold_seq(key@), target: tv },
                    ));
                }
            }
            None => {
                self.aliases.push(b);
                proof {
                    assert(aliases_view(self.aliases@) =~= prev.push(
                        ABV { key: fold_seq(key@), target: tv },
                    ));
                }
            }
        }
    }
}

} // verus!
