use vstd::prelude::*;

verus! {

/// A mark given to a student.
#[derive(Clone, Debug, PartialEq, Eq)]
pub struct Mark {
    pub teacher_id: u64,
    pub subject: Vec<u8>,
    pub score: usize,
    pub timestamp: u64,
}

/// An absence of a student from a scheduled lesson.
#[derive(Clone, Debug, PartialEq, Eq)]
pub struct Absence {
    pub employee_id: u64,
    pub day_of_week: usize,
    pub start_time: usize,
    pub end_time: usize,
    pub subject: Vec<u8>,
    pub justified: bool,
    pub reason: Vec<u8>,
    pub timestamp: u64,
}

/// The unsigned big-endian value of `s`; leading zero bytes add nothing.
pub open spec fn be_value(s: Seq<u8>) -> nat
    decreases s.len(),
{
    if s.len() == 0 {
        0
    } else {
        be_value(s.drop_last()) * 256 + s.last() as nat
    }
}

/// The shortest big-endian bytes of `v`: empty for zero.
pub open spec fn minimal_be(v: nat) -> Seq<u8>
    decreases v,
{
    if v == 0 {
        Seq::empty()
    } else {
        minimal_be(v / 256).push((v % 256) as u8)
    }
}

/// The four-byte big-endian length prefix of a field of `n` bytes.
pub open spec fn len_prefix(n: nat) -> Seq<u8> {
    seq![((n / 0x100_0000) % 256) as u8, ((n / 0x1_0000) % 256) as u8, ((n / 0x100) % 256) as u8, (n % 256) as u8]
}

/// One field as framed in a record: its length, then its bytes.
pub open spec fn frame(f: Seq<u8>) -> Seq<u8> {
    len_prefix(f.len()) + f
}

/// Splits a record into its fields: `None` where a length prefix is cut
/// short or announces more bytes than follow.
#[verifier::opaque]
pub open spec fn parse_fields(b: Seq<u8>) -> Option<Seq<Seq<u8>>>
    decreases b.len(),
{
    if b.len() == 0 {
        Some(Seq::empty())
    } else if b.len() < 4 {
        None
    } else {
        let n = be_value(b.subrange(0, 4)) as int;
        if b.len() < 4 + n {
            None
        } else {
            match parse_fields(b.subrange(4 + n, b.len() as int)) {
                Some(rest) => Some(seq![b.subrange(4, 4 + n)] + rest),
                None => None,
            }
        }
    }
}

/// The fields of `b`, each at least `k` of them, when it splits into at least `k`.
pub open spec fn has_fields(b: Seq<u8>, k: nat) -> bool {
    parse_fields(b) is Some && parse_fields(b)->Some_0.len() >= k
}

/// Field `i` of record `b`.
pub open spec fn field(b: Seq<u8>, i: int) -> Seq<u8> {
    parse_fields(b)->Some_0[i]
}

/// Field `i` of record `b` holds a number no larger than `max`.
pub open spec fn number_fits(b: Seq<u8>, i: int, max: nat) -> bool {
    be_value(field(b, i)) <= max
}

/// `b` decodes as a mark.
pub open spec fn is_mark_record(b: Seq<u8>) -> bool {
    &&& has_fields(b, 4)
    &&& number_fits(b, 0, u64::MAX as nat)
    &&& number_fits(b, 2, usize::MAX as nat)
    &&& number_fits(b, 3, u64::MAX as nat)
}

/// `b` decodes as an absence.
pub open spec fn is_absence_record(b: Seq<u8>) -> bool {
    &&& has_fields(b, 8)
    &&& number_fits(b, 0, u64::MAX as nat)
    &&& number_fits(b, 1, usize::MAX as nat)
    &&& number_fits(b, 2, usize::MAX as nat)
    &&& number_fits(b, 3, usize::MAX as nat)
    &&& number_fits(b, 5, u64::MAX as nat)
    &&& number_fits(b, 7, u64::MAX as nat)
}

/// Fields framed one after the other.
pub open spec fn frames(fs: Seq<Seq<u8>>) -> Seq<u8>
    decreases fs.len(),
{
    if fs.len() == 0 {
        Seq::empty()
    } else {
        frames(fs.drop_last()) + frame(fs.last())
    }
}

/// The fields of a mark: teacher, subject, score and time, in that order.
pub open spec fn mark_fields(m: Mark) -> Seq<Seq<u8>> {
    seq![minimal_be(m.teacher_id as nat), m.subject@, minimal_be(m.score as nat), minimal_be(m.timestamp as nat)]
}

/// The fields of an absence: employee, day, start, end, subject, whether
/// justified (one or zero), reason and time, in that order.
pub open spec fn absence_fields(a: Absence) -> Seq<Seq<u8>> {
    seq![
        minimal_be(a.employee_id as nat),
        minimal_be(a.day_of_week as nat),
        minimal_be(a.start_time as nat),
        minimal_be(a.end_time as nat),
        a.subject@,
        minimal_be(if a.justified { 1nat } else { 0nat }),
        a.reason@,
        minimal_be(a.timestamp as nat),
    ]
}

proof fn lemma_be_value_prefix(s: Seq<u8>, i: int)
    requires
        0 <= i <= s.len(),
    ensures
        be_value(s.subrange(0, i)) <= be_value(s),
    decreases s.len() - i,
{
    if i < s.len() {
        lemma_be_value_prefix(s, i + 1);
        assert(s.subrange(0, i + 1).drop_last() =~= s.subrange(0, i));
    } else {
        assert(s.subrange(0, i) =~= s);
    }
}

/// The number held big-endian in `s`: `None` where it exceeds `u64::MAX`.
pub fn read_number(s: &Vec<u8>) -> (r: Option<u64>)
    ensures
        r is Some <==> be_value(s@) <= u64::MAX,
        r matches Some(v) ==> v == be_value(s@),
{
    let mut acc: u64 = 0;
    let mut i: usize = 0;
    while i < s.len()
        invariant
            i <= s@.len(),
            acc == be_value(s@.subrange(0, i as int)),
        decreases s.len() - i,
    {
        assert(s@.subrange(0, i as int + 1).drop_last() =~= s@.subrange(0, i as int));
        if acc > (u64::MAX - s[i] as u64) / 256 {
            proof {
                lemma_be_value_prefix(s@, i as int + 1);
            }
            return None;
        }
        acc = acc * 256 + s[i] as u64;
        i = i + 1;
    }
    assert(s@.subrange(0, i as int) =~= s@);
    Some(acc)
}

/// Splits a record into its fields.
fn split_fields(b: &Vec<u8>) -> (r: Option<Vec<Vec<u8>>>)
    ensures
        r is Some <==> parse_fields(b@) is Some,
        r matches Some(v) ==> v@.len() == parse_fields(b@)->Some_0.len() && forall|i: int|
            0 <= i < v@.len() ==> (#[trigger] v@[i])@ == parse_fields(b@)->Some_0[i],
{
    let mut fields: Vec<Vec<u8>> = Vec::new();
    let mut pos: usize = 0;
    proof {
        reveal(parse_fields);
        assert(b@.subrange(0, b@.len() as int) =~= b@);
        if let Some(all) = parse_fields(b@) {
            assert(fields@.map_values(|f: Vec<u8>| f@) + all =~= all);
        }
    }
    while pos < b.len()
        invariant
            pos <= b@.len(),
            parse_fields(b@) == match parse_fields(b@.subrange(pos as int, b@.len() as int)) {
                Some(rest) => Some(fields@.map_values(|f: Vec<u8>| f@) + rest),
                None => None::<Seq<Seq<u8>>>,
            },
        decreases b.len() - pos,
    {
        proof {
            reveal(parse_fields);
        }
        let ghost tail = b@.subrange(pos as int, b@.len() as int);
        if b.len() - pos < 4 {
            return None;
        }
        let n: usize = ((b[pos] as usize * 256 + b[pos + 1] as usize) * 256 + b[pos + 2] as usize) * 256 + b[pos + 3] as usize;
        proof {
            reveal_with_fuel(be_value, 5);
            assert(tail.subrange(0, 4).drop_last().drop_last().drop_last().drop_last() =~= Seq::<u8>::empty());
            assert(n == be_value(tail.subrange(0, 4)));
        }
        if b.len() - pos - 4 < n {
            return None;
        }
        let mut f: Vec<u8> = Vec::new();
        let end: usize = pos + 4 + n;
        let mut j: usize = pos + 4;
        while j < end
            invariant
                end == pos + 4 + n,
                pos + 4 <= j <= end <= b@.len(),
                f@ == b@.subrange(pos as int + 4, j as int),
            decreases end - j,
        {
            f.push(b[j]);
            j = j + 1;
            assert(f@ =~= b@.subrange(pos as int + 4, j as int));
        }
        let ghost before = fields@.map_values(|f: Vec<u8>| f@);
        fields.push(f);
        proof {
            assert(tail.subrange(4, 4 + n as int) =~= b@.subrange(pos as int + 4, pos as int + 4 + n as int));
            assert(tail.subrange(4 + n as int, tail.len() as int) =~= b@.subrange(pos as int + 4 + n as int, b@.len() as int));
            assert(fields@.map_values(|f: Vec<u8>| f@) =~= before.push(f@));
            match parse_fields(b@.subrange(pos as int + 4 + n as int, b@.len() as int)) {
                Some(rest) => {
                    assert(before + (seq![f@] + rest) =~= before.push(f@) + rest);
                },
                None => {},
            }
        }
        pos = pos + 4 + n;
    }
    proof {
        assert(b@.subrange(pos as int, b@.len() as int) =~= Seq::<u8>::empty());
        assert(fields@.map_values(|f: Vec<u8>| f@) + Seq::<Seq<u8>>::empty() =~= fields@.map_values(|f: Vec<u8>| f@));
    }
    Some(fields)
}

/// Appends `v` to `out` as shortest big-endian bytes.
fn push_number(out: &mut Vec<u8>, v: u64)
    ensures
        final(out)@ == old(out)@ + minimal_be(v as nat),
    decreases v,
{
    if v == 0 {
        assert(old(out)@ + minimal_be(0) =~= old(out)@);
        return;
    }
    push_number(out, v / 256);
    out.push((v % 256) as u8);
    assert(final(out)@ =~= old(out)@ + minimal_be(v as nat));
}

/// `256` to the power `k`.
pub open spec fn byte_bound(k: nat) -> nat
    decreases k,
{
    if k == 0 {
        1
    } else {
        256 * byte_bound((k - 1) as nat)
    }
}

proof fn lemma_minimal_be_len(v: nat, k: nat)
    requires
        v < byte_bound(k),
    ensures
        minimal_be(v).len() <= k,
    decreases k,
{
    if v > 0 {
        lemma_minimal_be_len(v / 256, (k - 1) as nat);
    }
}

/// The shortest big-endian bytes of `v`.
fn number_bytes(v: u64) -> (r: Vec<u8>)
    ensures
        r@ == minimal_be(v as nat),
        r@.len() <= 8,
{
    proof {
        reveal_with_fuel(byte_bound, 9);
        assert(byte_bound(8) == 0x1_0000_0000_0000_0000);
        lemma_minimal_be_len(v as nat, 8);
    }
    let mut r: Vec<u8> = Vec::new();
    push_number(&mut r, v);
    assert(r@ =~= minimal_be(v as nat));
    r
}

/// Appends field `f` to `out`, framed.
fn push_field(out: &mut Vec<u8>, f: &Vec<u8>)
    requires
        f@.len() <= u32::MAX,
    ensures
        final(out)@ == old(out)@ + frame(f@),
{
    let n = f.len();
    out.push(((n / 0x100_0000) % 256) as u8);
    out.push(((n / 0x1_0000) % 256) as u8);
    out.push(((n / 0x100) % 256) as u8);
    out.push((n % 256) as u8);
    assert(out@ =~= old(out)@ + len_prefix(f@.len()) + f@.subrange(0, 0));
    let mut i: usize = 0;
    while i < f.len()
        invariant
            i <= f@.len(),
            out@ == old(out)@ + len_prefix(f@.len()) + f@.subrange(0, i as int),
        decreases f.len() - i,
    {
        out.push(f[i]);
        i = i + 1;
        assert(out@ =~= old(out)@ + len_prefix(f@.len()) + f@.subrange(0, i as int));
    }
    assert(f@.subrange(0, i as int) =~= f@);
    assert(final(out)@ =~= old(out)@ + frame(f@));
}

proof fn lemma_be_value_minimal(v: nat)
    ensures
        be_value(minimal_be(v)) == v,
    decreases v,
{
    if v > 0 {
        lemma_be_value_minimal(v / 256);
        assert(minimal_be(v).drop_last() =~= minimal_be(v / 256));
    }
}

proof fn lemma_be_value_len_prefix(n: nat)
    requires
        n <= u32::MAX,
    ensures
        be_value(len_prefix(n)) == n,
{
    let p = len_prefix(n);
    reveal_with_fuel(be_value, 5);
    assert(p.drop_last().drop_last().drop_last().drop_last() =~= Seq::<u8>::empty());
    assert(p.drop_last().drop_last().drop_last() =~= seq![p[0]]);
    assert(p.drop_last().drop_last() =~= seq![p[0], p[1]]);
    assert(p.drop_last() =~= seq![p[0], p[1], p[2]]);
    assert(((((n / 0x100_0000) % 256) * 256 + (n / 0x1_0000) % 256) * 256 + (n / 0x100) % 256) * 256 + n % 256 == n);
}

proof fn lemma_parse_frame(f: Seq<u8>, rest: Seq<u8>)
    requires
        f.len() <= u32::MAX,
        parse_fields(rest) is Some,
    ensures
        parse_fields(frame(f) + rest) == Some(seq![f] + parse_fields(rest)->Some_0),
{
    reveal(parse_fields);
    let b = frame(f) + rest;
    lemma_be_value_len_prefix(f.len());
    assert(b.subrange(0, 4) =~= len_prefix(f.len()));
    assert(b.subrange(4, 4 + f.len() as int) =~= f);
    assert(b.subrange(4 + f.len() as int, b.len() as int) =~= rest);
}

/// Framing one more field appends its frame.
proof fn lemma_frames_prefix(fs: Seq<Seq<u8>>, k: int)
    requires
        0 < k <= fs.len(),
    ensures
        frames(fs.subrange(0, k)) == frames(fs.subrange(0, k - 1)) + frame(fs[k - 1]),
{
    assert(fs.subrange(0, k).drop_last() =~= fs.subrange(0, k - 1));
}

proof fn lemma_frames_front(fs: Seq<Seq<u8>>)
    requires
        fs.len() > 0,
    ensures
        frames(fs) == frame(fs[0]) + frames(fs.drop_first()),
    decreases fs.len(),
{
    if fs.len() == 1 {
        assert(fs.drop_last() =~= Seq::<Seq<u8>>::empty());
        assert(fs.drop_first() =~= Seq::<Seq<u8>>::empty());
        assert(frames(fs) =~= frame(fs[0]) + frames(fs.drop_first()));
    } else {
        let init = fs.drop_last();
        lemma_frames_front(init);
        assert(init.drop_first() =~= fs.drop_first().drop_last());
        assert(fs.drop_first().last() == fs.last());
        vstd::seq_lib::lemma_concat_associative(frame(fs[0]), frames(init.drop_first()), frame(fs.last()));
    }
}

proof fn lemma_parse_frames(fs: Seq<Seq<u8>>)
    requires
        forall|i: int| 0 <= i < fs.len() ==> (#[trigger] fs[i]).len() <= u32::MAX,
    ensures
        parse_fields(frames(fs)) == Some(fs),
    decreases fs.len(),
{
    if fs.len() == 0 {
        reveal(parse_fields);
    } else {
        lemma_frames_front(fs);
        lemma_parse_frames(fs.drop_first());
        lemma_parse_frame(fs[0], frames(fs.drop_first()));
        assert(seq![fs[0]] + fs.drop_first() =~= fs);
    }
}

/// The shortest bytes of a number that fits in 64 bits make a field of at
/// most eight bytes that reads back as that number.
proof fn lemma_number_field(v: nat)
    requires
        v <= u64::MAX,
    ensures
        minimal_be(v).len() <= 8,
        be_value(minimal_be(v)) == v,
{
    reveal_with_fuel(byte_bound, 9);
    assert(byte_bound(8) == 0x1_0000_0000_0000_0000);
    lemma_minimal_be_len(v, 8);
    lemma_be_value_minimal(v);
}

/// Decoding the record of a mark gives the mark back.
pub proof fn lemma_mark_round_trip(m: Mark)
    requires
        m.subject@.len() <= u32::MAX,
    ensures
        is_mark_record(frames(mark_fields(m))),
        be_value(field(frames(mark_fields(m)), 0)) == m.teacher_id,
        field(frames(mark_fields(m)), 1) == m.subject@,
        be_value(field(frames(mark_fields(m)), 2)) == m.score,
        be_value(field(frames(mark_fields(m)), 3)) == m.timestamp,
{
    lemma_number_field(m.teacher_id as nat);
    lemma_number_field(m.score as nat);
    lemma_number_field(m.timestamp as nat);
    lemma_parse_frames(mark_fields(m));
}

/// Decoding the record of an absence gives the absence back.
pub proof fn lemma_absence_round_trip(a: Absence)
    requires
        a.subject@.len() <= u32::MAX,
        a.reason@.len() <= u32::MAX,
    ensures
        is_absence_record(frames(absence_fields(a))),
        be_value(field(frames(absence_fields(a)), 0)) == a.employee_id,
        be_value(field(frames(absence_fields(a)), 1)) == a.day_of_week,
        be_value(field(frames(absence_fields(a)), 2)) == a.start_time,
        be_value(field(frames(absence_fields(a)), 3)) == a.end_time,
        field(frames(absence_fields(a)), 4) == a.subject@,
        (be_value(field(frames(absence_fields(a)), 5)) == 1) == a.justified,
        field(frames(absence_fields(a)), 6) == a.reason@,
        be_value(field(frames(absence_fields(a)), 7)) == a.timestamp,
{
    lemma_number_field(a.employee_id as nat);
    lemma_number_field(a.day_of_week as nat);
    lemma_number_field(a.start_time as nat);
    lemma_number_field(a.end_time as nat);
    lemma_number_field(if a.justified { 1nat } else { 0nat });
    lemma_number_field(a.timestamp as nat);
    lemma_parse_frames(absence_fields(a));
}

impl Mark {
    /// Encodes the mark as a record of four framed fields.
    pub fn to_bytes(&self) -> (r: Vec<u8>)
        requires
            self.subject@.len() <= u32::MAX,
        ensures
            r@ == frames(mark_fields(*self)),
    {
        let ghost fs = mark_fields(*self);
        let mut out: Vec<u8> = Vec::new();
        push_field(&mut out, &number_bytes(self.teacher_id));
        proof { lemma_frames_prefix(fs, 1); }
        push_field(&mut out, &self.subject);
        proof { lemma_frames_prefix(fs, 2); }
        push_field(&mut out, &number_bytes(self.score as u64));
        proof { lemma_frames_prefix(fs, 3); }
        push_field(&mut out, &number_bytes(self.timestamp));
        proof { lemma_frames_prefix(fs, 4); }
        assert(fs.subrange(0, 4) =~= fs);
        out
    }

    /// Decodes a mark from its record: `None` where the bytes do not split
    /// into at least four fields or a number field is out of range.
    pub fn from_bytes(buffer: &Vec<u8>) -> (r: Option<Mark>)
        ensures
            r is Some <==> is_mark_record(buffer@),
            r matches Some(m) ==> {
                &&& m.teacher_id == be_value(field(buffer@, 0))
                &&& m.subject@ == field(buffer@, 1)
                &&& m.score == be_value(field(buffer@, 2))
                &&& m.timestamp == be_value(field(buffer@, 3))
            },
    {
        let fields = match split_fields(buffer) {
            Some(f) => f,
            None => return None,
        };
        if fields.len() < 4 {
            return None;
        }
        let teacher_id = match read_number(&fields[0]) {
            Some(v) => v,
            None => return None,
        };
        let score = match read_number(&fields[2]) {
            Some(v) => v,
            None => return None,
        };
        if score as u128 > usize::MAX as u128 {
            return None;
        }
        let timestamp = match read_number(&fields[3]) {
            Some(v) => v,
            None => return None,
        };
        let subject = copy_field(&fields[1]);
        Some(Mark { teacher_id, subject, score: score as usize, timestamp })
    }
}

impl Absence {
    /// Encodes the absence as a record of eight framed fields.
    pub fn to_bytes(&self) -> (r: Vec<u8>)
        requires
            self.subject@.len() <= u32::MAX,
            self.reason@.len() <= u32::MAX,
        ensures
            r@ == frames(absence_fields(*self)),
    {
        let ghost fs = absence_fields(*self);
        let mut out: Vec<u8> = Vec::new();
        push_field(&mut out, &number_bytes(self.employee_id));
        proof { lemma_frames_prefix(fs, 1); }
        push_field(&mut out, &number_bytes(self.day_of_week as u64));
        proof { lemma_frames_prefix(fs, 2); }
        push_field(&mut out, &number_bytes(self.start_time as u64));
        proof { lemma_frames_prefix(fs, 3); }
        push_field(&mut out, &number_bytes(self.end_time as u64));
        proof { lemma_frames_prefix(fs, 4); }
        push_field(&mut out, &self.subject);
        proof { lemma_frames_prefix(fs, 5); }
        push_field(&mut out, &number_bytes(if self.justified { 1 } else { 0 }));
        proof { lemma_frames_prefix(fs, 6); }
        push_field(&mut out, &self.reason);
        proof { lemma_frames_prefix(fs, 7); }
        push_field(&mut out, &number_bytes(self.timestamp));
        proof { lemma_frames_prefix(fs, 8); }
        assert(fs.subrange(0, 8) =~= fs);
        out
    }

    /// Decodes an absence from its record: `None` where the bytes do not
    /// split into at least eight fields or a number field is out of range.
    /// The absence is justified exactly when its flag field holds one.
    pub fn from_bytes(buffer: &Vec<u8>) -> (r: Option<Absence>)
        ensures
            r is Some <==> is_absence_record(buffer@),
            r matches Some(a) ==> {
                &&& a.employee_id == be_value(field(buffer@, 0))
                &&& a.day_of_week == be_value(field(buffer@, 1))
                &&& a.start_time == be_value(field(buffer@, 2))
                &&& a.end_time == be_value(field(buffer@, 3))
                &&& a.subject@ == field(buffer@, 4)
                &&& a.justified == (be_value(field(buffer@, 5)) == 1)
                &&& a.reason@ == field(buffer@, 6)
                &&& a.timestamp == be_value(field(buffer@, 7))
            },
    {
        let fields = match split_fields(buffer) {
            Some(f) => f,
            None => return None,
        };
        if fields.len() < 8 {
            return None;
        }
        let employee_id = match read_number(&fields[0]) {
            Some(v) => v,
            None => return None,
        };
        let day_of_week = match read_number(&fields[1]) {
            Some(v) => v,
            None => return None,
        };
        if day_of_week as u128 > usize::MAX as u128 {
            return None;
        }
        let start_time = match read_number(&fields[2]) {
            Some(v) => v,
            None => return None,
        };
        if start_time as u128 > usize::MAX as u128 {
            return None;
        }
        let end_time = match read_number(&fields[3]) {
            Some(v) => v,
            None => return None,
        };
        if end_time as u128 > usize::MAX as u128 {
            return None;
        }
        let justified = match read_number(&fields[5]) {
            Some(v) => v,
            None => return None,
        };
        let timestamp = match read_number(&fields[7]) {
            Some(v) => v,
            None => return None,
        };
        Some(Absence {
            employee_id,
            day_of_week: day_of_week as usize,
            start_time: start_time as usize,
            end_time: end_time as usize,
            subject: copy_field(&fields[4]),
            justified: justified == 1,
            reason: copy_field(&fields[6]),
            timestamp,
        })
    }
}

/// A copy of a field's bytes.
pub(crate) fn copy_field(f: &Vec<u8>) -> (r: Vec<u8>)
    ensures
        r@ == f@,
{
    crate::proposal::copy_bytes(f)
}

} // verus!
