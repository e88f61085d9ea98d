//! Text records produced by frame processing, and their ordering.

use vstd::multiset::Multiset;
use vstd::prelude::*;

verus! {

/// The text extracted from one frame.
pub struct TextRecord {
    pub text: String,
    pub timestamp: String,
    pub frame_number: u64,
    pub processing_type: String,
}

/// A text record in the shape handed to the host process, where the frame
/// number is a 32-bit integer. Only a record whose frame number fits has
/// such a shape.
pub struct JsImageData {
    pub timestamp: String,
    pub frame_number: u32,
    pub content: String,
    pub processing_type: String,
}

/// An ordered collection of host-facing records.
pub struct JsImageDataCollection(Vec<JsImageData>);

/// Each record's frame number is at most that of every later record.
pub open spec fn ordered_by_frame(s: Seq<TextRecord>) -> bool {
    forall|i: int, j: int| 0 <= i < j < s.len() ==> s[i].frame_number <= s[j].frame_number
}

/// No two records share a frame number.
pub open spec fn distinct_frames(s: Seq<TextRecord>) -> bool {
    forall|i: int, j: int|
        0 <= i < s.len() && 0 <= j < s.len() && i != j ==> s[i].frame_number != s[j].frame_number
}

/// The host-facing shape of a record, with the same frame number. A record
/// whose frame number does not fit in 32 bits has none.
pub open spec fn js_of_record(r: TextRecord) -> Option<JsImageData> {
    if r.frame_number <= u32::MAX {
        Some(
            JsImageData {
                timestamp: r.timestamp,
                frame_number: r.frame_number as u32,
                content: r.text,
                processing_type: r.processing_type,
            },
        )
    } else {
        None
    }
}

/// Whether every record of `s` has a host-facing shape.
pub open spec fn all_fit(s: Seq<TextRecord>) -> bool {
    forall|i: int| 0 <= i < s.len() ==> (#[trigger] s[i]).frame_number <= u32::MAX
}

/// The record that a host-facing value stands for.
pub open spec fn record_of_js(d: JsImageData) -> TextRecord {
    TextRecord {
        text: d.content,
        timestamp: d.timestamp,
        frame_number: d.frame_number as u64,
        processing_type: d.processing_type,
    }
}

impl Clone for TextRecord {
    fn clone(&self) -> (c: Self)
        ensures
            c == *self,
    {
        TextRecord {
            text: self.text.clone(),
            timestamp: self.timestamp.clone(),
            frame_number: self.frame_number,
            processing_type: self.processing_type.clone(),
        }
    }
}

impl Clone for JsImageData {
    fn clone(&self) -> (c: Self)
        ensures
            c == *self,
    {
        JsImageData {
            timestamp: self.timestamp.clone(),
            frame_number: self.frame_number,
            content: self.content.clone(),
            processing_type: self.processing_type.clone(),
        }
    }
}

impl JsImageData {
    /// Converts a record to its host-facing shape, if it has one: the frame
    /// number that crosses is the record's own, never another.
    pub fn from_record(r: TextRecord) -> (d: Option<JsImageData>)
        ensures
            d == js_of_record(r),
            d is Some <==> r.frame_number <= u32::MAX,
            d matches Some(d) ==> d.frame_number == r.frame_number,
    {
        if r.frame_number <= 0xffff_ffff {
            Some(
                JsImageData {
                    timestamp: r.timestamp,
                    frame_number: r.frame_number as u32,
                    content: r.text,
                    processing_type: r.processing_type,
                },
            )
        } else {
            None
        }
    }

    /// Converts a host-facing value back to a record.
    pub fn into_record(self) -> (r: TextRecord)
        ensures
            r == record_of_js(self),
    {
        TextRecord {
            text: self.content,
            timestamp: self.timestamp,
            frame_number: self.frame_number as u64,
            processing_type: self.processing_type,
        }
    }
}

impl From<JsImageData> for TextRecord {
    fn from(d: JsImageData) -> (r: TextRecord) {
        d.into_record()
    }
}

impl vstd::std_specs::convert::FromSpecImpl<JsImageData> for TextRecord {
    open spec fn obeys_from_spec() -> bool {
        true
    }

    open spec fn from_spec(d: JsImageData) -> TextRecord {
        record_of_js(d)
    }
}

/// Records with distinct frame numbers keep them distinct in whatever order
/// they are put.
pub proof fn lemma_distinct_frames_kept(a: Seq<TextRecord>, b: Seq<TextRecord>)
    requires
        distinct_frames(a),
        a.to_multiset() == b.to_multiset(),
    ensures
        distinct_frames(b),
{
    assert(a.no_duplicates());
    a.lemma_multiset_has_no_duplicates();
    b.lemma_multiset_has_no_duplicates_conv();
    assert forall|i: int, j: int|
        0 <= i < b.len() && 0 <= j < b.len() && i != j implies b[i].frame_number
        != b[j].frame_number by {
        assert(b.contains(b[i]));
        assert(b.contains(b[j]));
        vstd::seq_lib::to_multiset_contains(b, b[i]);
        vstd::seq_lib::to_multiset_contains(b, b[j]);
        vstd::seq_lib::to_multiset_contains(a, b[i]);
        vstd::seq_lib::to_multiset_contains(a, b[j]);
        let p = choose|p: int| 0 <= p < a.len() && a[p] == b[i];
        let q = choose|q: int| 0 <= q < a.len() && a[q] == b[j];
        assert(b[i] != b[j]);
        assert(p != q);
    }
}

/// Going to the host-facing shape and back returns the record unchanged
/// whenever its frame number fits in 32 bits.
pub proof fn lemma_record_round_trip(r: TextRecord)
    requires
        r.frame_number <= u32::MAX,
    ensures
        js_of_record(r) matches Some(d) && record_of_js(d) == r,
{
}

/// Going from the host-facing shape to a record and back changes nothing.
pub proof fn lemma_js_round_trip(d: JsImageData)
    ensures
        js_of_record(record_of_js(d)) == Some(d),
{
}

impl View for JsImageDataCollection {
    type V = Seq<JsImageData>;

    closed spec fn view(&self) -> Seq<JsImageData> {
        self.0@
    }
}

impl JsImageDataCollection {
    /// Wraps host-facing values, keeping their order.
    pub fn new(items: Vec<JsImageData>) -> (c: Self)
        ensures
            c@ == items@,
    {
        JsImageDataCollection(items)
    }

    /// Converts each record to its host-facing shape, keeping the order.
    /// There is no collection unless every record has such a shape.
    pub fn from_records(records: &Vec<TextRecord>) -> (c: Option<Self>)
        ensures
            c is Some <==> all_fit(records@),
            c matches Some(c) ==> c@.len() == records@.len() && forall|i: int|
                0 <= i < records@.len() ==> Some(c@[i]) == js_of_record(#[trigger] records@[i]),
    {
        let mut out: Vec<JsImageData> = Vec::new();
        let n: usize = records.len();
        let mut i: usize = 0;
        while i < n
            invariant
                n == records@.len(),
                i <= n,
                out@.len() == i,
                forall|k: int| 0 <= k < i ==> (#[trigger] records@[k]).frame_number <= u32::MAX,
                forall|k: int| 0 <= k < i ==> Some(out@[k]) == js_of_record(#[trigger] records@[k]),
            decreases n - i,
        {
            match JsImageData::from_record(records[i].clone()) {
                Some(d) => {
                    out.push(d);
                },
                None => {
                    assert(records@[i as int].frame_number > u32::MAX);
                    return None;
                },
            }
            i = i + 1;
        }
        Some(JsImageDataCollection(out))
    }

    /// Converts each host-facing value back to a record, keeping the order.
    pub fn to_records(&self) -> (records: Vec<TextRecord>)
        ensures
            records@.len() == self@.len(),
            forall|i: int|
                0 <= i < self@.len() ==> records@[i] == record_of_js(#[trigger] self@[i]),
    {
        let mut out: Vec<TextRecord> = Vec::new();
        let n: usize = self.0.len();
        let mut i: usize = 0;
        while i < n
            invariant
                n == self.0@.len(),
                i <= n,
                out@.len() == i,
                forall|k: int| 0 <= k < i ==> out@[k] == record_of_js(#[trigger] self.0@[k]),
            decreases n - i,
        {
            out.push(self.0[i].clone().into_record());
            i = i + 1;
        }
        out
    }

    /// The number of values held.
    pub fn len(&self) -> (n: usize)
        ensures
            n == self@.len(),
    {
        self.0.len()
    }

    /// The value at position `i`, if there is one.
    pub fn get(&self, i: usize) -> (d: Option<&JsImageData>)
        ensures
            i < self@.len() ==> d == Some(&self@[i as int]),
            i >= self@.len() ==> d is None,
    {
        if i < self.0.len() {
            Some(&self.0[i])
        } else {
            None
        }
    }

    /// Hands out the values held, in order.
    pub fn into_vec(self) -> (items: Vec<JsImageData>)
        ensures
            items@ == self@,
    {
        self.0
    }
}

/// The position at which a record with frame number `key` enters a sequence
/// ordered by frame number: before the first record whose number is not smaller.
fn insertion_point(sorted: &Vec<TextRecord>, key: u64) -> (pos: usize)
    requires
        ordered_by_frame(sorted@),
    ensures
        pos <= sorted@.len(),
        forall|k: int| 0 <= k < pos ==> sorted@[k].frame_number < key,
        forall|k: int| pos <= k < sorted@.len() ==> sorted@[k].frame_number >= key,
{
    let mut j: usize = 0;
    while j < sorted.len() && sorted[j].frame_number < key
        invariant
            j <= sorted@.len(),
            forall|k: int| 0 <= k < j ==> sorted@[k].frame_number < key,
        decreases sorted@.len() - j,
    {
        j = j + 1;
    }
    j
}

/// Orders records by frame number, ascending. The result holds exactly the
/// records given, each as often as it was given.
pub fn sort_by_frame_number(records: Vec<TextRecord>) -> (out: Vec<TextRecord>)
    ensures
        ordered_by_frame(out@),
        out@.to_multiset() == records@.to_multiset(),
        out@.len() == records@.len(),
{
    let mut rest: Vec<TextRecord> = records;
    let mut out: Vec<TextRecord> = Vec::new();
    proof {
        broadcast use vstd::seq_lib::group_to_multiset_ensures;
        assert(out@.to_multiset().add(rest@.to_multiset()) =~= records@.to_multiset());
    }
    while rest.len() > 0
        invariant
            ordered_by_frame(out@),
            out@.to_multiset().add(rest@.to_multiset()) == records@.to_multiset(),
            out@.len() + rest@.len() == records@.len(),
        decreases rest@.len(),
    {
        let ghost before_rest = rest@;
        let ghost before_out = out@;
        let r = rest.pop().unwrap();
        let pos = insertion_point(&out, r.frame_number);
        out.insert(pos, r);
        proof {
            assert(before_rest =~= rest@.push(r));
            vstd::seq_lib::to_multiset_build(rest@, r);
            vstd::seq_lib::to_multiset_insert(before_out, pos as int, r);
            assert(out@.to_multiset().add(rest@.to_multiset()) =~= before_out.to_multiset().add(
                before_rest.to_multiset(),
            ));
            assert forall|i: int, j: int| 0 <= i < j < out@.len() implies out@[i].frame_number
                <= out@[j].frame_number by {
                let a = if i < pos { i } else { i - 1 };
                let b = if j < pos { j } else { j - 1 };
                if i != pos && j != pos {
                    assert(out@[i] == before_out[a]);
                    assert(out@[j] == before_out[b]);
                } else if i == pos {
                    assert(out@[j] == before_out[b]);
                } else {
                    assert(out@[i] == before_out[a]);
                }
            }
        }
    }
    proof {
        assert(rest@.to_multiset() =~= Multiset::<TextRecord>::empty()) by {
            broadcast use vstd::seq_lib::group_to_multiset_ensures;
            assert(rest@ =~= Seq::<TextRecord>::empty());
        }
        assert(out@.to_multiset() =~= records@.to_multiset());
    }
    out
}

} // verus!
