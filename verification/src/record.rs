//! One row of variant data and its mathematical model.

use vstd::prelude::*;

verus! {

/// The genotype columns of one sample: one list of values per format key.
pub type Genotype = Vec<Vec<Vec<u8>>>;

/// One row of a variant-call stream.
///
/// The quality score is carried as the bit pattern of its floating-point
/// value: nothing here interprets it, it is only handed through.
#[derive(Clone, Debug, PartialEq, Eq)]
pub struct Record {
    pub chromosome: Vec<u8>,
    pub position: u64,
    pub id: Vec<Vec<u8>>,
    pub reference: Vec<u8>,
    pub alternative: Vec<Vec<u8>>,
    pub qual: Option<u64>,
    pub filter: Vec<Vec<u8>>,
    pub info: Vec<(Vec<u8>, Vec<Vec<u8>>)>,
    pub format: Vec<Vec<u8>>,
    pub genotype: Vec<Genotype>,
}

/// The mathematical value of a [`Record`].
pub struct RecordView {
    pub chromosome: Seq<u8>,
    pub position: u64,
    pub id: Seq<Seq<u8>>,
    pub reference: Seq<u8>,
    pub alternative: Seq<Seq<u8>>,
    pub qual: Option<u64>,
    pub filter: Seq<Seq<u8>>,
    pub info: Seq<(Seq<u8>, Seq<Seq<u8>>)>,
    pub format: Seq<Seq<u8>>,
    pub genotype: Seq<Seq<Seq<Seq<u8>>>>,
}

impl View for Record {
    type V = RecordView;

    open spec fn view(&self) -> RecordView {
        RecordView {
            chromosome: self.chromosome@,
            position: self.position,
            id: self.id.deep_view(),
            reference: self.reference@,
            alternative: self.alternative.deep_view(),
            qual: self.qual,
            filter: self.filter.deep_view(),
            info: self.info.deep_view(),
            format: self.format.deep_view(),
            genotype: self.genotype.deep_view(),
        }
    }
}

impl DeepView for Record {
    type V = RecordView;

    open spec fn deep_view(&self) -> RecordView {
        self@
    }
}

/// Two records describe the same variant: chromosome, position, identifier
/// list, reference allele and alternative alleles are equal, value for value.
/// The identifier column is part of the comparison.
pub open spec fn same_variant(a: RecordView, b: RecordView) -> bool {
    &&& a.chromosome == b.chromosome
    &&& a.position == b.position
    &&& a.id == b.id
    &&& a.reference == b.reference
    &&& a.alternative == b.alternative
}

impl Record {
    /// A record with every column empty and position 0.
    pub fn new() -> (record: Record)
        ensures
            record@ == RecordView::empty(),
    {
        let record = Record {
            chromosome: Vec::new(),
            position: 0,
            id: Vec::new(),
            reference: Vec::new(),
            alternative: Vec::new(),
            qual: None,
            filter: Vec::new(),
            info: Vec::new(),
            format: Vec::new(),
            genotype: Vec::new(),
        };
        assert(record@.id =~= Seq::empty());
        assert(record@.alternative =~= Seq::empty());
        assert(record@.filter =~= Seq::empty());
        assert(record@.info =~= Seq::empty());
        assert(record@.format =~= Seq::empty());
        assert(record@.genotype =~= Seq::empty());
        record
    }

    /// A copy of the record, column for column.
    pub fn duplicate(&self) -> (copy: Record)
        ensures
            copy@ == self@,
    {
        let n = self.info.len();
        let mut info: Vec<(Vec<u8>, Vec<Vec<u8>>)> = Vec::new();
        let mut i: usize = 0;
        while i < n
            invariant
                i <= n,
                n == self.info.len(),
                info.len() == i,
                forall|j: int| 0 <= j < i ==> info[j].deep_view() == self.info[j].deep_view(),
            decreases n - i,
        {
            let key = self.info[i].0.clone();
            let values = self.info[i].1.clone();
            assert(key.deep_view() =~= self.info[i as int].0.deep_view());
            assert(values.deep_view() =~= self.info[i as int].1.deep_view());
            info.push((key, values));
            i = i + 1;
        }
        let copy = Record {
            chromosome: self.chromosome.clone(),
            position: self.position,
            id: self.id.clone(),
            reference: self.reference.clone(),
            alternative: self.alternative.clone(),
            qual: self.qual,
            filter: self.filter.clone(),
            info,
            format: self.format.clone(),
            genotype: self.genotype.clone(),
        };
        assert(copy@.chromosome =~= self@.chromosome);
        assert(copy@.id =~= self@.id);
        assert(copy@.reference =~= self@.reference);
        assert(copy@.alternative =~= self@.alternative);
        assert(copy@.filter =~= self@.filter);
        assert(copy@.info =~= self@.info);
        assert(copy@.format =~= self@.format);
        assert(copy@.genotype =~= self@.genotype);
        copy
    }

    /// Whether `self` and `other` describe the same variant.
    pub fn same_variant_as(&self, other: &Record) -> (same: bool)
        ensures
            same == same_variant(self@, other@),
    {
        proof {
            broadcast use vstd::laws_eq::group_laws_eq;
            broadcast use vstd::std_specs::vec::lemma_vec_obeys_deep_eq;

            assert(vstd::laws_eq::obeys_deep_eq::<Vec<u8>>());
            assert(vstd::laws_eq::obeys_deep_eq::<Vec<Vec<u8>>>());
            reveal(vstd::laws_eq::obeys_deep_eq);
            assert(self.chromosome.deep_view() =~= self.chromosome@);
            assert(other.chromosome.deep_view() =~= other.chromosome@);
            assert(self.reference.deep_view() =~= self.reference@);
            assert(other.reference.deep_view() =~= other.reference@);
        }
        self.chromosome == other.chromosome && self.position == other.position && self.id
            == other.id && self.reference == other.reference && self.alternative
            == other.alternative
    }
}

impl RecordView {
    /// The value of a freshly made record.
    pub open spec fn empty() -> RecordView {
        RecordView {
            chromosome: Seq::empty(),
            position: 0,
            id: Seq::empty(),
            reference: Seq::empty(),
            alternative: Seq::empty(),
            qual: None,
            filter: Seq::empty(),
            info: Seq::empty(),
            format: Seq::empty(),
            genotype: Seq::empty(),
        }
    }
}

} // verus!
