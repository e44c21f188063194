use vstd::prelude::*;

verus! {

broadcast use vstd::std_specs::vec::group_vec_axioms;

/// The primitive classification of a leaf of a schema.
#[derive(Debug, Clone)]
pub enum Primitive {
    /// A plain number, as inferred from a scalar value.
    Num,
    /// A semantic label attached by a hint (a color, an angle, ...).
    Labeled(String),
}

/// The structural shape of a configuration value.
///
/// A struct node keeps its fields as a vector of pairs whose keys are
/// unique (see `wf`); the order of the pairs carries no meaning.
#[derive(Debug)]
pub enum Schema {
    Val(Primitive),
    List(Box<Schema>),
    Struct(String, Vec<(String, Schema)>),
}

pub enum PrimitiveView {
    Num,
    Labeled(Seq<char>),
}

/// The mathematical shape: a struct node is a map from key to shape, so that
/// two shapes are equal exactly when they agree key by key.
pub enum SchemaView {
    Val(PrimitiveView),
    List(Box<SchemaView>),
    Struct(Seq<char>, Map<Seq<char>, SchemaView>),
}

/// The map that a sequence of (key, shape) pairs denotes; a later pair
/// overrides an earlier one with the same key.
pub open spec fn pairs_to_map(s: Seq<(Seq<char>, SchemaView)>) -> Map<Seq<char>, SchemaView>
    decreases s.len(),
{
    if s.len() == 0 {
        Map::empty()
    } else {
        pairs_to_map(s.drop_last()).insert(s.last().0, s.last().1)
    }
}

pub open spec fn keys_unique(s: Seq<(Seq<char>, SchemaView)>) -> bool {
    forall|i: int, j: int| 0 <= i < s.len() && 0 <= j < s.len() && i != j ==> s[i].0 != s[j].0
}

impl Primitive {
    pub open spec fn view(&self) -> PrimitiveView {
        match self {
            Primitive::Num => PrimitiveView::Num,
            Primitive::Labeled(l) => PrimitiveView::Labeled(l@),
        }
    }
}

/// The (key, shape) pairs of a field vector.
pub open spec fn field_pairs(fs: Vec<(String, Schema)>) -> Seq<(Seq<char>, SchemaView)>
    decreases fs,
{
    Seq::new(
        fs.len() as nat,
        |i: int|
            if 0 <= i < fs.len() {
                (fs[i].0@, fs[i].1.view())
            } else {
                (Seq::empty(), SchemaView::Val(PrimitiveView::Num))
            },
    )
}

impl Schema {
    pub open spec fn view(&self) -> SchemaView
        decreases self,
    {
        match self {
            Schema::Val(p) => SchemaView::Val(p.view()),
            Schema::List(e) => SchemaView::List(Box::new(e.view())),
            Schema::Struct(n, fs) => SchemaView::Struct(
                n@,
                pairs_to_map(field_pairs(*fs)),
            ),
        }
    }

    /// Well-formed: the keys of every struct node are unique.
    pub open spec fn wf(&self) -> bool
        decreases self,
    {
        match self {
            Schema::Val(_) => true,
            Schema::List(e) => e.wf(),
            Schema::Struct(_, fs) => {
                &&& forall|i: int, j: int|
                    0 <= i < fs.len() && 0 <= j < fs.len() && i != j ==> fs[i].0@ != fs[j].0@
                &&& forall|i: int| 0 <= i < fs.len() ==> (#[trigger] fs[i]).1.wf()
            },
        }
    }
}

/// With unique keys, the map holds exactly the keys of the sequence, each
/// with its own shape.
pub proof fn lemma_pairs_to_map(s: Seq<(Seq<char>, SchemaView)>)
    requires
        keys_unique(s),
    ensures
        forall|k: Seq<char>|
            pairs_to_map(s).contains_key(k) <==> exists|i: int| 0 <= i < s.len() && s[i].0 == k,
        forall|i: int| 0 <= i < s.len() ==> pairs_to_map(s)[#[trigger] s[i].0] == s[i].1,
    decreases s.len(),
{
    if s.len() > 0 {
        let p = s.drop_last();
        assert(keys_unique(p));
        lemma_pairs_to_map(p);
        assert(pairs_to_map(s) == pairs_to_map(p).insert(s.last().0, s.last().1));
        assert forall|k: Seq<char>|
            pairs_to_map(s).contains_key(k) <==> exists|i: int| 0 <= i < s.len() && s[i].0 == k by {
            if pairs_to_map(s).contains_key(k) && k != s.last().0 {
                assert(pairs_to_map(p).contains_key(k));
                let i = choose|i: int| 0 <= i < p.len() && p[i].0 == k;
                assert(p[i] == s[i]);
                assert(s[i].0 == k);
            }
            if exists|i: int| 0 <= i < s.len() && s[i].0 == k {
                let i = choose|i: int| 0 <= i < s.len() && s[i].0 == k;
                if i < p.len() {
                    assert(p[i] == s[i]);
                    assert(p[i].0 == k);
                }
            }
        }
        assert forall|i: int| 0 <= i < s.len() implies pairs_to_map(s)[#[trigger] s[i].0]
            == s[i].1 by {
            if i < p.len() {
                assert(p[i] == s[i]);
                assert(s[i].0 != s.last().0);
            }
        }
    }
}

/// The map of a struct node's fields, stated over the field vector itself.
pub proof fn lemma_fields_map(fs: Vec<(String, Schema)>)
    requires
        forall|i: int, j: int|
            0 <= i < fs.len() && 0 <= j < fs.len() && i != j ==> fs[i].0@ != fs[j].0@,
    ensures
        forall|k: Seq<char>|
            #[trigger] pairs_to_map(field_pairs(fs)).contains_key(k) <==> exists|i: int|
                0 <= i < fs.len() && fs[i].0@ == k,
        forall|i: int|
            0 <= i < fs.len() ==> pairs_to_map(field_pairs(fs))[(#[trigger] fs[i]).0@]
                == fs[i].1.view(),
{
    let s = field_pairs(fs);
    assert forall|i: int| 0 <= i < fs.len() implies #[trigger] s[i] == (fs[i].0@, fs[i].1.view()) by {}
    lemma_pairs_to_map(s);
    assert forall|k: Seq<char>| #[trigger] pairs_to_map(s).contains_key(k) <==> exists|i: int|
        0 <= i < fs.len() && fs[i].0@ == k by {
        if pairs_to_map(s).contains_key(k) {
            let i = choose|i: int| 0 <= i < s.len() && s[i].0 == k;
            assert(s[i] == (fs[i].0@, fs[i].1.view()));
        }
        if exists|i: int| 0 <= i < fs.len() && fs[i].0@ == k {
            let i = choose|i: int| 0 <= i < fs.len() && fs[i].0@ == k;
            assert(s[i] == (fs[i].0@, fs[i].1.view()));
        }
    }
    assert forall|i: int| 0 <= i < fs.len() implies pairs_to_map(s)[(#[trigger] fs[i]).0@]
        == fs[i].1.view() by {
        assert(s[i] == (fs[i].0@, fs[i].1.view()));
    }
}

pub open spec fn fields_unique(fs: Vec<(String, Schema)>) -> bool {
    forall|i: int, j: int| 0 <= i < fs.len() && 0 <= j < fs.len() && i != j ==> fs[i].0@ != fs[j].0@
}

/// Overwriting the field of key `k` in place, or appending it when absent,
/// inserts `k` into the map of the fields.
pub proof fn lemma_fields_map_put(a: Vec<(String, Schema)>, b: Vec<(String, Schema)>, k: String, s: Schema)
    requires
        fields_unique(a),
        (exists|j: int|
            0 <= j < a.len() && a[j].0@ == k@ && b@ == a@.update(j, (k, s))) || ((forall|i: int|
            0 <= i < a.len() ==> a[i].0@ != k@) && b@ == a@.push((k, s))),
    ensures
        fields_unique(b),
        pairs_to_map(field_pairs(b)) == pairs_to_map(field_pairs(a)).insert(k@, s.view()),
{
    assert forall|i: int| 0 <= i < b.len() && b[i].0@ != k@ implies 0 <= i < a.len() && (
    #[trigger] b[i]) == a[i] by {
        if exists|j: int| 0 <= j < a.len() && a[j].0@ == k@ && b@ == a@.update(j, (k, s)) {
            assert(b[i] == b@[i]);
        } else {
            assert(b[i] == b@[i]);
        }
    }
    assert forall|i: int| 0 <= i < a.len() && a[i].0@ != k@ implies exists|x: int|
        0 <= x < b.len() && b[x] == a[i] by {
        assert(b@[i] == a[i]);
    }
    assert(exists|x: int| 0 <= x < b.len() && b[x] == (k, s)) by {
        if exists|j: int| 0 <= j < a.len() && a[j].0@ == k@ && b@ == a@.update(j, (k, s)) {
            let j = choose|j: int| 0 <= j < a.len() && a[j].0@ == k@ && b@ == a@.update(j, (k, s));
            assert(b@[j] == (k, s));
        } else {
            assert(b@[a.len() as int] == (k, s));
        }
    }
    assert(fields_unique(b));
    lemma_fields_map(a);
    lemma_fields_map(b);
    let ma = pairs_to_map(field_pairs(a));
    let mb = pairs_to_map(field_pairs(b));
    let m2 = ma.insert(k@, s.view());
    assert forall|q: Seq<char>| #[trigger] mb.contains_key(q) <==> m2.contains_key(q) by {
        if mb.contains_key(q) && q != k@ {
            let x = choose|x: int| 0 <= x < b.len() && b[x].0@ == q;
            assert(b[x] == a[x]);
        }
        if ma.contains_key(q) && q != k@ {
            let x = choose|x: int| 0 <= x < a.len() && a[x].0@ == q;
            let y = choose|y: int| 0 <= y < b.len() && b[y] == a[x];
            assert(b[y].0@ == q);
        }
    }
    assert forall|q: Seq<char>| #[trigger] mb.contains_key(q) implies mb[q] == m2[q] by {
        let x = choose|x: int| 0 <= x < b.len() && b[x].0@ == q;
        if q != k@ {
            assert(b[x] == a[x]);
        } else {
            let y = choose|y: int| 0 <= y < b.len() && b[y] == (k, s);
            assert(x == y);
        }
    }
    assert(mb =~= m2);
}

/// Looks up the position of key `k` among the fields.
pub fn find_key(fs: &Vec<(String, Schema)>, k: &String) -> (r: Option<usize>)
    ensures
        match r {
            Some(j) => j < fs.len() && fs[j as int].0@ == k@,
            None => forall|j: int| 0 <= j < fs.len() ==> fs[j].0@ != k@,
        },
{
    let mut j: usize = 0;
    while j < fs.len()
        invariant
            j <= fs.len(),
            forall|i: int| 0 <= i < j ==> fs[i].0@ != k@,
        decreases fs.len() - j,
    {
        if fs[j].0 == *k {
            return Some(j);
        }
        j = j + 1;
    }
    None
}

impl Primitive {
    pub fn equal(&self, other: &Primitive) -> (r: bool)
        ensures
            r == (self.view() == other.view()),
    {
        match (self, other) {
            (Primitive::Num, Primitive::Num) => true,
            (Primitive::Labeled(a), Primitive::Labeled(b)) => *a == *b,
            _ => false,
        }
    }
}

impl Schema {
    /// Structural equality: same variant, same struct names and key sets,
    /// and equal shapes under each key; field order is ignored.
    pub fn equal(&self, other: &Schema) -> (r: bool)
        requires
            self.wf(),
            other.wf(),
        ensures
            r == (self.view() == other.view()),
        decreases self,
    {
        match (self, other) {
            (Schema::Val(a), Schema::Val(b)) => a.equal(b),
            (Schema::List(a), Schema::List(b)) => a.equal(b),
            (Schema::Struct(na, fa), Schema::Struct(nb, fb)) => {
                proof {
                    lemma_fields_map(*fa);
                    lemma_fields_map(*fb);
                }
                let ghost ma = pairs_to_map(field_pairs(*fa));
                let ghost mb = pairs_to_map(field_pairs(*fb));
                if !(*na == *nb) {
                    return false;
                }
                let mut i: usize = 0;
                while i < fa.len()
                    invariant
                        *self == Schema::Struct(*na, *fa),
                        *other == Schema::Struct(*nb, *fb),
                        self.wf(),
                        other.wf(),
                        ma == pairs_to_map(field_pairs(*fa)),
                        mb == pairs_to_map(field_pairs(*fb)),
                        i <= fa.len(),
                        forall|x: int|
                            0 <= x < i ==> mb.contains_key((#[trigger] fa[x]).0@) && mb[fa[x].0@]
                                == fa[x].1.view(),
                    decreases fa.len() - i,
                {
                    proof {
                        lemma_fields_map(*fa);
                        lemma_fields_map(*fb);
                    }
                    assert(ma[fa[i as int].0@] == fa[i as int].1.view());
                    match find_key(fb, &fa[i].0) {
                        None => {
                            assert(ma.contains_key(fa[i as int].0@));
                            assert(!mb.contains_key(fa[i as int].0@));
                            return false;
                        },
                        Some(j) => {
                            assert(mb[fb[j as int].0@] == fb[j as int].1.view());
                            assert(fa[i as int].1.wf());
                            assert(fb[j as int].1.wf());
                            if !fa[i].1.equal(&fb[j].1) {
                                return false;
                            }
                            assert(mb.contains_key(fb[j as int].0@));
                            assert(mb[fa[i as int].0@] == ma[fa[i as int].0@]);
                        },
                    }
                    let ghost i0 = i as int;
                    assert(mb.contains_key(fa[i0].0@) && mb[fa[i0].0@] == fa[i0].1.view());
                    i = i + 1;
                    assert forall|x: int| 0 <= x < i implies mb.contains_key((#[trigger] fa[x]).0@)
                        && mb[fa[x].0@] == fa[x].1.view() by {
                        if x == i0 {
                        }
                    }
                }
                let mut j: usize = 0;
                while j < fb.len()
                    invariant
                        *self == Schema::Struct(*na, *fa),
                        *other == Schema::Struct(*nb, *fb),
                        self.wf(),
                        other.wf(),
                        ma == pairs_to_map(field_pairs(*fa)),
                        mb == pairs_to_map(field_pairs(*fb)),
                        j <= fb.len(),
                        forall|x: int| 0 <= x < j ==> #[trigger] ma.contains_key(fb[x].0@),
                    decreases fb.len() - j,
                {
                    proof {
                        lemma_fields_map(*fa);
                        lemma_fields_map(*fb);
                    }
                    match find_key(fa, &fb[j].0) {
                        None => {
                            assert(mb.contains_key(fb[j as int].0@));
                            return false;
                        },
                        Some(x) => {
                            assert(ma.contains_key(fa[x as int].0@));
                        },
                    }
                    j = j + 1;
                }
                assert forall|k: Seq<char>| #[trigger] ma.contains_key(k) implies mb.contains_key(k)
                    && mb[k] == ma[k] by {
                    let x = choose|x: int| 0 <= x < fa.len() && fa[x].0@ == k;
                    assert(mb.contains_key(fa[x].0@));
                    assert(ma[fa[x].0@] == fa[x].1.view());
                }
                assert forall|k: Seq<char>| #[trigger] mb.contains_key(k) implies ma.contains_key(k) by {
                    let x = choose|x: int| 0 <= x < fb.len() && fb[x].0@ == k;
                    assert(ma.contains_key(fb[x].0@));
                }
                assert(ma =~= mb);
                true
            },
            _ => false,
        }
    }
}

/// Which variant a shape is.
pub open spec fn variant_of(a: SchemaView) -> int {
    match a {
        SchemaView::Val(_) => 0,
        SchemaView::List(_) => 1,
        SchemaView::Struct(_, _) => 2,
    }
}

/// Shapes differ when their variants differ, when two structs have different
/// key sets or differ under some key, or when two lists' element shapes
/// differ; `Schema::equal` then answers `false`.
pub proof fn lemma_shape_sensitive(a: SchemaView, b: SchemaView)
    ensures
        variant_of(a) != variant_of(b) ==> a != b,
        (a matches SchemaView::Struct(_, ma) && b matches SchemaView::Struct(_, mb) && ma.dom()
            != mb.dom()) ==> a != b,
        (a matches SchemaView::Struct(_, ma) && b matches SchemaView::Struct(_, mb) && exists|
            k: Seq<char>,
        |
            ma.contains_key(k) && mb.contains_key(k) && ma[k] != mb[k]) ==> a != b,
        (a matches SchemaView::List(ea) && b matches SchemaView::List(eb) && ea != eb) ==> a != b,
{
}

} // verus!
