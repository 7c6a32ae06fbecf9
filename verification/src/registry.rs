//! A registry of semantic convention files, as they were read, before any
//! resolution.

use vstd::prelude::*;
use crate::attribute::AttributeSpecWithProvenance;
use crate::group::{GroupSpec, GroupType};
use crate::metric::MetricSpecWithProvenance;
use crate::stats::{breakdown_of, breakdown_view, Stats};
use crate::text::to_owned_string;
use crate::v1::semconv::SemConvSpecV1;

verus! {

/// A collection of semantic convention files, each with the path or URL it
/// was read from.
pub struct SemConvRegistry {
    id: String,
    specs: Vec<(String, SemConvSpecV1)>,
    attributes: Vec<AttributeSpecWithProvenance>,
    metrics: Vec<MetricSpecWithProvenance>,
}

/// The files of a registry: the provenance and the file, in the order they
/// were added.
pub open spec fn files_view(s: Seq<(String, SemConvSpecV1)>) -> Seq<(Seq<char>, SemConvSpecV1)> {
    s.map_values(|p: (String, SemConvSpecV1)| (p.0@, p.1))
}

/// The groups of the files, file after file, each with its file's
/// provenance.
pub open spec fn file_groups(files: Seq<(Seq<char>, SemConvSpecV1)>) -> Seq<(GroupSpec, Seq<char>)>
    decreases files.len(),
{
    if files.len() == 0 {
        Seq::empty()
    } else {
        let (prov, spec) = files.last();
        file_groups(files.drop_last()) + spec.groups@.map_values(|g: GroupSpec| (g, prov))
    }
}

/// The types of the groups of the files, in order.
pub open spec fn file_group_types(files: Seq<(Seq<char>, SemConvSpecV1)>) -> Seq<GroupType> {
    file_groups(files).map_values(|p: (GroupSpec, Seq<char>)| p.0.type_)
}

impl SemConvRegistry {
    /// The id of the registry.
    pub closed spec fn id_view(self) -> Seq<char> {
        self.id@
    }

    /// The files added, in order.
    pub closed spec fn files(self) -> Seq<(Seq<char>, SemConvSpecV1)> {
        files_view(self.specs@)
    }

    /// The number of attributes indexed.
    pub closed spec fn attribute_total(self) -> nat {
        self.attributes@.len()
    }

    /// The number of metrics indexed.
    pub closed spec fn metric_total(self) -> nat {
        self.metrics@.len()
    }

    /// An empty registry with the given id.
    pub fn new(id: &str) -> (r: SemConvRegistry)
        ensures
            r.id_view() == id@,
            r.files() == Seq::<(Seq<char>, SemConvSpecV1)>::empty(),
            r.attribute_total() == 0,
            r.metric_total() == 0,
    {
        let r = SemConvRegistry {
            id: to_owned_string(id),
            specs: Vec::new(),
            attributes: Vec::new(),
            metrics: Vec::new(),
        };
        assert(files_view(r.specs@) =~= Seq::<(Seq<char>, SemConvSpecV1)>::empty());
        r
    }

    /// A registry with the given id holding the given files, each with its
    /// provenance, in order.
    pub fn from_semconv_specs(registry_id: &str, semconv_specs: Vec<(String, SemConvSpecV1)>) -> (r:
        SemConvRegistry)
        ensures
            r.id_view() == registry_id@,
            r.files() == files_view(semconv_specs@),
            r.attribute_total() == 0,
            r.metric_total() == 0,
    {
        let mut registry = SemConvRegistry::new(registry_id);
        let ghost all = semconv_specs@;
        assert(all.len() == semconv_specs.len());
        let mut rest = crate::vec_util::into_reversed(semconv_specs);
        let mut i: usize = 0;
        proof {
            assert(all.subrange(0, all.len() as int) =~= all);
            assert(files_view(all.take(0)) =~= registry.files());
        }
        while rest.len() > 0
            invariant
                i + rest@.len() == all.len(),
                all.len() <= usize::MAX,
                rest@ == all.subrange(i as int, all.len() as int).reverse(),
                registry.id_view() == registry_id@,
                registry.files() == files_view(all.take(i as int)),
                registry.attribute_total() == 0,
                registry.metric_total() == 0,
            decreases rest.len(),
        {
            proof {
                crate::vec_util::lemma_reversed_suffix_pop(all, i as int);
            }
            let f = rest.pop().unwrap();
            registry.add_semconv_spec(f);
            proof {
                assert(all.take(i + 1) =~= all.take(i as int).push(all[i as int]));
                assert(files_view(all.take(i + 1)) =~= files_view(all.take(i as int)).push(
                    (all[i as int].0@, all[i as int].1),
                ));
            }
            i = i + 1;
        }
        proof {
            assert(all.take(all.len() as int) =~= all);
        }
        registry
    }

    /// The id of the registry.
    pub fn id(&self) -> (r: &str)
        ensures
            r@ == self.id_view(),
    {
        self.id.as_str()
    }

    /// Adds a file with its provenance.
    fn add_semconv_spec(&mut self, spec: (String, SemConvSpecV1))
        ensures
            final(self).id_view() == old(self).id_view(),
            final(self).files() == old(self).files().push((spec.0@, spec.1)),
            final(self).attribute_total() == old(self).attribute_total(),
            final(self).metric_total() == old(self).metric_total(),
    {
        let ghost before = self.specs@;
        self.specs.push(spec);
        assert(files_view(self.specs@) =~= files_view(before).push((spec.0@, spec.1)));
    }

    /// The number of files added.
    pub fn semconv_spec_count(&self) -> (r: usize)
        ensures
            r == self.files().len(),
    {
        self.specs.len()
    }

    /// The groups of all the files, as they were read, file after file, each
    /// with the provenance of its file.
    pub fn unresolved_group_with_provenance_iter(&self) -> (r: Vec<(&GroupSpec, &str)>)
        ensures
            r@.map_values(|p: (&GroupSpec, &str)| (*p.0, p.1@)) == file_groups(self.files()),
    {
        let ghost files = self.files();
        let mut out: Vec<(&GroupSpec, &str)> = Vec::new();
        let mut i: usize = 0;
        assert(files.take(0) =~= Seq::<(Seq<char>, SemConvSpecV1)>::empty());
        assert(out@.map_values(|p: (&GroupSpec, &str)| (*p.0, p.1@)) =~= file_groups(files.take(0)));
        while i < self.specs.len()
            invariant
                files == files_view(self.specs@),
                i <= self.specs@.len(),
                out@.map_values(|p: (&GroupSpec, &str)| (*p.0, p.1@)) == file_groups(files.take(i as int)),
            decreases self.specs@.len() - i,
        {
            let prov = self.specs[i].0.as_str();
            let groups = &self.specs[i].1.groups;
            let ghost start = out@.map_values(|p: (&GroupSpec, &str)| (*p.0, p.1@));
            let mut j: usize = 0;
            assert(groups@.take(0).map_values(|g: GroupSpec| (g, prov@)) =~= Seq::<(GroupSpec, Seq<char>)>::empty());
            assert(start + Seq::<(GroupSpec, Seq<char>)>::empty() =~= start);
            while j < groups.len()
                invariant
                    j <= groups@.len(),
                    out@.map_values(|p: (&GroupSpec, &str)| (*p.0, p.1@)) == start + groups@.take(
                        j as int,
                    ).map_values(|g: GroupSpec| (g, prov@)),
                decreases groups@.len() - j,
            {
                let ghost b = out@;
                out.push((&groups[j], prov));
                assert(groups@.take(j + 1).map_values(|g: GroupSpec| (g, prov@)) =~= groups@.take(
                    j as int,
                ).map_values(|g: GroupSpec| (g, prov@)).push((groups@[j as int], prov@)));
                assert(out@.map_values(|p: (&GroupSpec, &str)| (*p.0, p.1@)) =~= b.map_values(
                    |p: (&GroupSpec, &str)| (*p.0, p.1@),
                ).push((groups@[j as int], prov@)));
                j = j + 1;
            }
            proof {
                assert(groups@.take(groups@.len() as int) =~= groups@);
                assert(files.take(i + 1).drop_last() =~= files.take(i as int));
                assert(files.take(i + 1).last() == (prov@, self.specs@[i as int].1));
            }
            i = i + 1;
        }
        assert(files.take(files.len() as int) =~= files);
        out
    }

    /// Counts the files, the groups (in all and of each type, each type in
    /// the order it first occurs), and the attributes and metrics indexed.
    pub fn stats(&self) -> (r: Stats)
        ensures
            r.file_count == self.files().len(),
            r.group_count == file_groups(self.files()).len(),
            breakdown_view(r.group_breakdown@) == breakdown_of(file_group_types(self.files())),
            r.attribute_count == self.attribute_total(),
            r.metric_count == self.metric_total(),
    {
        let groups = self.unresolved_group_with_provenance_iter();
        let ghost all = file_groups(self.files());
        let ghost types = file_group_types(self.files());
        assert(groups@.len() == all.len());
        let n = groups.len();
        let mut breakdown: Vec<(GroupType, usize)> = Vec::new();
        let mut i: usize = 0;
        assert(types.take(0) =~= Seq::<GroupType>::empty());
        assert(breakdown_view(breakdown@) =~= breakdown_of(types.take(0)));
        while i < groups.len()
            invariant
                i <= groups@.len(),
                groups@.len() == all.len(),
                n == groups@.len(),
                types == all.map_values(|p: (GroupSpec, Seq<char>)| p.0.type_),
                groups@.map_values(|p: (&GroupSpec, &str)| (*p.0, p.1@)) == all,
                breakdown_view(breakdown@) == breakdown_of(types.take(i as int)),
                crate::stats::types_distinct(breakdown_view(breakdown@)),
                forall|k: int| 0 <= k < breakdown@.len() ==> (#[trigger] breakdown@[k]).1 <= i,
            decreases groups@.len() - i,
        {
            let t = groups[i].0.type_;
            proof {
                assert(groups@.map_values(|p: (&GroupSpec, &str)| (*p.0, p.1@))[i as int] == all[i as int]);
                assert(t == types[i as int]);
                assert(types.take(i + 1).drop_last() =~= types.take(i as int));
                assert(types.take(i + 1).last() == t);
            }
            let ghost bv = breakdown_view(breakdown@);
            let mut k: usize = 0;
            while k < breakdown.len() && !(breakdown[k].0 == t)
                invariant
                    k <= breakdown@.len(),
                    forall|m: int| 0 <= m < k ==> (#[trigger] breakdown@[m]).0 != t,
                decreases breakdown@.len() - k,
            {
                k = k + 1;
            }
            if k < breakdown.len() {
                let c = breakdown[k].1;
                proof {
                    assert(bv[k as int].0 == t);
                    let j = choose|j: int| 0 <= j < bv.len() && (#[trigger] bv[j]).0 == t;
                    if j != k {
                        assert(bv[j].0 != bv[k as int].0);
                    }
                }
                breakdown.set(k, (t, c + 1));
                proof {
                    assert(breakdown_view(breakdown@) =~= bv.update(k as int, (t, bv[k as int].1 + 1)));
                    assert forall|x: int, y: int|
                        0 <= x < breakdown@.len() && 0 <= y < breakdown@.len() && x != y implies (
                        #[trigger] breakdown_view(breakdown@)[x]).0 != (#[trigger] breakdown_view(
                        breakdown@,
                    )[y]).0 by {
                        assert(bv[x].0 != bv[y].0);
                    }
                }
            } else {
                proof {
                    assert(!exists|j: int| 0 <= j < bv.len() && (#[trigger] bv[j]).0 == t) by {
                        if exists|j: int| 0 <= j < bv.len() && (#[trigger] bv[j]).0 == t {
                            let j = choose|j: int| 0 <= j < bv.len() && (#[trigger] bv[j]).0 == t;
                            assert(breakdown@[j].0 == t);
                        }
                    }
                }
                breakdown.push((t, 1));
                proof {
                    assert(breakdown_view(breakdown@) =~= bv.push((t, 1nat)));
                    assert forall|x: int, y: int|
                        0 <= x < breakdown@.len() && 0 <= y < breakdown@.len() && x != y implies (
                        #[trigger] breakdown_view(breakdown@)[x]).0 != (#[trigger] breakdown_view(
                        breakdown@,
                    )[y]).0 by {
                        if x < bv.len() && y < bv.len() {
                            assert(bv[x].0 != bv[y].0);
                        } else if x < bv.len() {
                            assert(breakdown_view(breakdown@)[x] == bv[x]);
                        } else {
                            assert(breakdown_view(breakdown@)[y] == bv[y]);
                        }
                    }
                }
            }
            i = i + 1;
        }
        proof {
            assert(types.take(types.len() as int) =~= types);
        }
        Stats {
            file_count: self.specs.len(),
            group_count: groups.len(),
            group_breakdown: breakdown,
            attribute_count: self.attributes.len(),
            metric_count: self.metrics.len(),
        }
    }
}

} // verus!
