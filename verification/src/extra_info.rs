//! The handle of a popped message: what a broker must be told to acknowledge it.
use vstd::prelude::*;

use crate::error::{is_client, Error};
use crate::names::RETRY_PREFIX;
use crate::text::{
    begins_with, decimal, free_of, has_part, holds, int_text, joined, lemma_decimal_free, lemma_decimal_reads_back,
    lemma_pieces_of_joined, parse_i64,
    parsed_int, pieces, split, starts, texts,
};

verus! {

/// What a handle says of a topic: a plain one, or which form of retry topic.
pub open spec fn retry_flag(topic: Seq<char>) -> Seq<char> {
    if begins_with(topic, RETRY_PREFIX@) {
        if has_part(topic, "+"@) {
            "2"@
        } else {
            "1"@
        }
    } else {
        "0"@
    }
}

pub fn retry_of_topic(topic: &str) -> (r: &'static str)
    ensures
        r@ == retry_flag(topic@),
{
    if starts(topic, RETRY_PREFIX) {
        if holds(topic, "+") {
            "2"
        } else {
            "1"
        }
    } else {
        "0"
    }
}

/// The handle: seven fields with blanks between them, and the message's own offset as the
/// eighth where it is given.
pub open spec fn handle(
    ck_offset: int,
    pop_time: int,
    invisible_time: int,
    revive_qid: int,
    topic: Seq<char>,
    broker_name: Seq<char>,
    queue_id: int,
    msg_offset: Option<int>,
) -> Seq<char> {
    let seven = decimal(ck_offset) + " "@ + decimal(pop_time) + " "@ + decimal(invisible_time) + " "@
        + decimal(revive_qid) + " "@ + retry_flag(topic) + " "@ + broker_name + " "@ + decimal(queue_id);
    match msg_offset {
        Some(o) => seven + " "@ + decimal(o),
        None => seven,
    }
}

pub fn build_extra_info(
    ck_offset: i64,
    pop_time: i64,
    invisible_time: i64,
    revive_qid: i32,
    topic: &str,
    broker_name: &str,
    queue_id: i32,
    msg_offset: Option<i64>,
) -> (r: String)
    ensures
        r@ == handle(
            ck_offset as int,
            pop_time as int,
            invisible_time as int,
            revive_qid as int,
            topic@,
            broker_name@,
            queue_id as int,
            match msg_offset {
                Some(o) => Some(o as int),
                None => None,
            },
        ),
{
    let seven = int_text(ck_offset).concat(" ").concat(int_text(pop_time).as_str()).concat(" ").concat(
        int_text(invisible_time).as_str(),
    ).concat(" ").concat(int_text(revive_qid as i64).as_str()).concat(" ").concat(
        retry_of_topic(topic),
    ).concat(" ").concat(broker_name).concat(" ").concat(int_text(queue_id as i64).as_str());
    match msg_offset {
        Some(o) => seven.concat(" ").concat(int_text(o).as_str()),
        None => seven,
    }
}

/// The field of a handle that says what its topic was.
pub open spec fn handle_retry(ck: Seq<char>) -> Option<Seq<char>> {
    let parts = pieces(ck, " "@);
    if parts.len() < 5 {
        None
    } else {
        Some(parts[4])
    }
}

/// The field of a handle that names its broker.
pub open spec fn handle_broker(ck: Seq<char>) -> Option<Seq<char>> {
    let parts = pieces(ck, " "@);
    if parts.len() < 6 {
        None
    } else {
        Some(parts[5])
    }
}

pub fn get_retry(ck: &str) -> (r: Result<String, Error>)
    ensures
        match handle_retry(ck@) {
            Some(f) => r matches Ok(s) && s@ == f,
            None => r matches Err(e) && is_client(e, None, "parse retry flag fail, extraInfo: "@ + ck@),
        },
{
    let parts = split(ck, " ");
    assert(texts(parts@).len() == parts@.len());
    if parts.len() < 5 {
        return Err(
            Error::client("parse retry flag fail, extraInfo: ".to_owned().concat(ck).as_str()),
        );
    }
    assert(texts(parts@)[4] == parts@[4]@);
    Ok(parts[4].clone())
}

pub fn get_broker_name(ck: &str) -> (r: Result<String, Error>)
    ensures
        match handle_broker(ck@) {
            Some(f) => r matches Ok(s) && s@ == f,
            None => r matches Err(e) && is_client(e, None, "parse brokerName fail, extraInfo: "@ + ck@),
        },
{
    let parts = split(ck, " ");
    assert(texts(parts@).len() == parts@.len());
    if parts.len() < 6 {
        return Err(
            Error::client("parse brokerName fail, extraInfo: ".to_owned().concat(ck).as_str()),
        );
    }
    assert(texts(parts@)[5] == parts@[5]@);
    Ok(parts[5].clone())
}

/// A handle names the broker and the form of topic that it was made with, whatever its numbers
/// are, where the broker's name holds no blank.
pub proof fn law_handle_reads_back(
    ck_offset: int,
    pop_time: int,
    invisible_time: int,
    revive_qid: int,
    topic: Seq<char>,
    broker_name: Seq<char>,
    queue_id: int,
    msg_offset: Option<int>,
)
    requires
        free_of(broker_name, ' '),
    ensures
        ({
            let ck = handle(ck_offset, pop_time, invisible_time, revive_qid, topic, broker_name, queue_id, msg_offset);
            handle_broker(ck) == Some(broker_name) && handle_retry(ck) == Some(retry_flag(topic))
        }),
{
    reveal_strlit(" ");
    reveal_strlit("0");
    reveal_strlit("1");
    reveal_strlit("2");
    let blank = seq![' '];
    assert(" "@ =~= blank);
    let flag = retry_flag(topic);
    lemma_decimal_free(ck_offset, ' ');
    lemma_decimal_free(pop_time, ' ');
    lemma_decimal_free(invisible_time, ' ');
    lemma_decimal_free(revive_qid, ' ');
    lemma_decimal_free(queue_id, ' ');
    assert(free_of(flag, ' '));
    let seven = seq![
        decimal(ck_offset),
        decimal(pop_time),
        decimal(invisible_time),
        decimal(revive_qid),
        flag,
        broker_name,
        decimal(queue_id),
    ];
    lemma_seven_joined(seven);
    match msg_offset {
        Some(o) => {
            lemma_decimal_free(o, ' ');
            let eight = seven.push(decimal(o));
            assert(eight.drop_last() =~= seven);
            lemma_pieces_of_joined(eight, ' ');
        },
        None => {
            lemma_pieces_of_joined(seven, ' ');
        },
    }
}

proof fn lemma_seven_joined(f: Seq<Seq<char>>)
    requires
        f.len() == 7,
    ensures
        joined(f, " "@) == f[0] + " "@ + f[1] + " "@ + f[2] + " "@ + f[3] + " "@ + f[4] + " "@ + f[5] + " "@ + f[6],
{
    reveal_with_fuel(joined, 8);
}

/// The name under which the tables of a pop answer list a queue.
pub open spec fn table_key(flag: Seq<char>, queue_id: Seq<char>) -> Seq<char> {
    flag + "@"@ + queue_id
}

pub fn make_table_key(flag: &str, queue_id: &str) -> (r: String)
    ensures
        r@ == table_key(flag@, queue_id@),
{
    flag.to_owned().concat("@").concat(queue_id)
}

/// A number in the range of `i64`.
pub open spec fn long(s: Seq<char>) -> Option<i64> {
    match parsed_int(s) {
        Some(v) => if i64::MIN <= v <= i64::MAX {
            Some(v as i64)
        } else {
            None
        },
        None => None,
    }
}

/// One entry `flag queue offset` of the table of first offsets.
pub open spec fn start_entry(s: Seq<char>) -> Option<(Seq<char>, i64)> {
    let parts = pieces(s, " "@);
    if parts.len() != 3 {
        None
    } else {
        match long(parts[2]) {
            Some(v) => Some((table_key(parts[0], parts[1]), v)),
            None => None,
        }
    }
}

/// The entries, in order; `None` where one is malformed.
pub open spec fn start_entries(parts: Seq<Seq<char>>) -> Option<Seq<(Seq<char>, i64)>>
    decreases parts.len(),
{
    if parts.len() == 0 {
        Some(Seq::empty())
    } else {
        match (start_entries(parts.drop_last()), start_entry(parts.last())) {
            (Some(before), Some(e)) => Some(before.push(e)),
            _ => None,
        }
    }
}

/// The offsets `a,b,c` of one queue.
pub open spec fn offset_list(parts: Seq<Seq<char>>) -> Option<Seq<i64>>
    decreases parts.len(),
{
    if parts.len() == 0 {
        Some(Seq::empty())
    } else {
        match (offset_list(parts.drop_last()), long(parts.last())) {
            (Some(before), Some(v)) => Some(before.push(v)),
            _ => None,
        }
    }
}

/// One entry `flag queue offset,offset,..` of the table of message offsets.
pub open spec fn msg_entry(s: Seq<char>) -> Option<(Seq<char>, Seq<i64>)> {
    let parts = pieces(s, " "@);
    if parts.len() != 3 {
        None
    } else {
        match offset_list(pieces(parts[2], ","@)) {
            Some(v) => Some((table_key(parts[0], parts[1]), v)),
            None => None,
        }
    }
}

pub open spec fn msg_entries(parts: Seq<Seq<char>>) -> Option<Seq<(Seq<char>, Seq<i64>)>>
    decreases parts.len(),
{
    if parts.len() == 0 {
        Some(Seq::empty())
    } else {
        match (msg_entries(parts.drop_last()), msg_entry(parts.last())) {
            (Some(before), Some(e)) => Some(before.push(e)),
            _ => None,
        }
    }
}

/// What a table of first offsets holds.
pub open spec fn starts_of(v: Seq<(String, i64)>) -> Seq<(Seq<char>, i64)> {
    Seq::new(v.len(), |i: int| (v[i].0@, v[i].1))
}

/// What a table of message offsets holds.
pub open spec fn offsets_of(v: Seq<(String, Vec<i64>)>) -> Seq<(Seq<char>, Seq<i64>)> {
    Seq::new(v.len(), |i: int| (v[i].0@, v[i].1@))
}

/// The table of first offsets in a text of `;`-separated entries.
pub fn parse_start_offset_info(info: &str) -> (r: Result<Vec<(String, i64)>, Error>)
    ensures
        match start_entries(pieces(info@, ";"@)) {
            Some(t) => r matches Ok(v) && starts_of(v@) == t,
            None => r matches Err(e) && is_client(e, None, "parse startOffsetInfo error, "@ + info@),
        },
{
    let parts = split(info, ";");
    let mut out: Vec<(String, i64)> = Vec::new();
    let mut bad = false;
    let mut i: usize = 0;
    assert(starts_of(out@) =~= Seq::<(Seq<char>, i64)>::empty());
    while i < parts.len()
        invariant
            i <= parts.len(),
            match start_entries(texts(parts@).subrange(0, i as int)) {
                Some(t) => !bad && starts_of(out@) == t,
                None => bad,
            },
        decreases parts.len() - i,
    {
        proof {
            let s = texts(parts@).subrange(0, i + 1);
            assert(s.drop_last() =~= texts(parts@).subrange(0, i as int));
            assert(s.last() == parts@[i as int]@);
        }
        if !bad {
            let fields = split(parts[i].as_str(), " ");
            assert(texts(fields@).len() == fields@.len());
            if fields.len() != 3 {
                bad = true;
            } else {
                assert(texts(fields@)[0] == fields@[0]@ && texts(fields@)[1] == fields@[1]@ && texts(
                    fields@,
                )[2] == fields@[2]@);
                match parse_i64(fields[2].as_str()) {
                    Some(v) => {
                        let key = make_table_key(fields[0].as_str(), fields[1].as_str());
                        let ghost before = out@;
                        out.push((key, v));
                        assert(starts_of(out@) =~= starts_of(before).push((key@, v)));
                    },
                    None => {
                        bad = true;
                    },
                }
            }
        }
        i = i + 1;
    }
    assert(texts(parts@).subrange(0, i as int) =~= texts(parts@));
    if bad {
        Err(Error::client("parse startOffsetInfo error, ".to_owned().concat(info).as_str()))
    } else {
        Ok(out)
    }
}

fn parse_offsets(s: &str) -> (r: Option<Vec<i64>>)
    ensures
        match offset_list(pieces(s@, ","@)) {
            Some(t) => r matches Some(v) && v@ == t,
            None => r is None,
        },
{
    let parts = split(s, ",");
    let mut out: Vec<i64> = Vec::new();
    let mut bad = false;
    let mut i: usize = 0;
    while i < parts.len()
        invariant
            i <= parts.len(),
            match offset_list(texts(parts@).subrange(0, i as int)) {
                Some(t) => !bad && out@ == t,
                None => bad,
            },
        decreases parts.len() - i,
    {
        proof {
            let t = texts(parts@).subrange(0, i + 1);
            assert(t.drop_last() =~= texts(parts@).subrange(0, i as int));
            assert(t.last() == parts@[i as int]@);
        }
        match parse_i64(parts[i].as_str()) {
            Some(v) => {
                out.push(v);
            },
            None => {
                bad = true;
            },
        }
        i = i + 1;
    }
    assert(texts(parts@).subrange(0, i as int) =~= texts(parts@));
    if bad {
        None
    } else {
        Some(out)
    }
}

/// The table of message offsets in a text of `;`-separated entries.
pub fn parse_msg_offset_info(info: &str) -> (r: Result<Vec<(String, Vec<i64>)>, Error>)
    ensures
        match msg_entries(pieces(info@, ";"@)) {
            Some(t) => r matches Ok(v) && offsets_of(v@) == t,
            None => r matches Err(e) && is_client(e, None, "parse msgOffsetInfo error, "@ + info@),
        },
{
    let parts = split(info, ";");
    let mut out: Vec<(String, Vec<i64>)> = Vec::new();
    let mut bad = false;
    let mut i: usize = 0;
    assert(offsets_of(out@) =~= Seq::<(Seq<char>, Seq<i64>)>::empty());
    while i < parts.len()
        invariant
            i <= parts.len(),
            match msg_entries(texts(parts@).subrange(0, i as int)) {
                Some(t) => !bad && offsets_of(out@) == t,
                None => bad,
            },
        decreases parts.len() - i,
    {
        proof {
            let s = texts(parts@).subrange(0, i + 1);
            assert(s.drop_last() =~= texts(parts@).subrange(0, i as int));
            assert(s.last() == parts@[i as int]@);
        }
        if !bad {
            let fields = split(parts[i].as_str(), " ");
            assert(texts(fields@).len() == fields@.len());
            if fields.len() != 3 {
                bad = true;
            } else {
                assert(texts(fields@)[0] == fields@[0]@ && texts(fields@)[1] == fields@[1]@ && texts(
                    fields@,
                )[2] == fields@[2]@);
                match parse_offsets(fields[2].as_str()) {
                    Some(v) => {
                        let key = make_table_key(fields[0].as_str(), fields[1].as_str());
                        let ghost before = out@;
                        out.push((key, v));
                        assert(offsets_of(out@) =~= offsets_of(before).push((key@, v@)));
                    },
                    None => {
                        bad = true;
                    },
                }
            }
        }
        i = i + 1;
    }
    assert(texts(parts@).subrange(0, i as int) =~= texts(parts@));
    if bad {
        Err(Error::client("parse msgOffsetInfo error, ".to_owned().concat(info).as_str()))
    } else {
        Ok(out)
    }
}

pub proof fn lemma_handle_fields(
    ck_offset: int,
    pop_time: int,
    invisible_time: int,
    revive_qid: int,
    topic: Seq<char>,
    broker_name: Seq<char>,
    queue_id: int,
    msg_offset: Option<int>,
)
    requires
        free_of(broker_name, ' '),
    ensures
        ({
            let ck = handle(ck_offset, pop_time, invisible_time, revive_qid, topic, broker_name, queue_id, msg_offset);
            let seven = seq![
                decimal(ck_offset),
                decimal(pop_time),
                decimal(invisible_time),
                decimal(revive_qid),
                retry_flag(topic),
                broker_name,
                decimal(queue_id),
            ];
            pieces(ck, " "@) == match msg_offset {
                Some(o) => seven.push(decimal(o)),
                None => seven,
            }
        }),
{
    reveal_strlit(" ");
    reveal_strlit("0");
    reveal_strlit("1");
    reveal_strlit("2");
    assert(" "@ =~= seq![' ']);
    let flag = retry_flag(topic);
    lemma_decimal_free(ck_offset, ' ');
    lemma_decimal_free(pop_time, ' ');
    lemma_decimal_free(invisible_time, ' ');
    lemma_decimal_free(revive_qid, ' ');
    lemma_decimal_free(queue_id, ' ');
    assert(free_of(flag, ' '));
    let seven = seq![
        decimal(ck_offset),
        decimal(pop_time),
        decimal(invisible_time),
        decimal(revive_qid),
        flag,
        broker_name,
        decimal(queue_id),
    ];
    lemma_seven_joined(seven);
    match msg_offset {
        Some(o) => {
            lemma_decimal_free(o, ' ');
            let eight = seven.push(decimal(o));
            assert(eight.drop_last() =~= seven);
            lemma_pieces_of_joined(eight, ' ');
        },
        None => {
            lemma_pieces_of_joined(seven, ' ');
        },
    }
}

/// The fields of a handle, between blanks, are in this order: where the pop began in the queue,
/// when it was, how long the message is hidden, the queue that it revives in, the form of its
/// topic, the broker, the number of the queue, and the offset of the message where it is given.
/// (Brokers with a blank in their name are left out.)
pub proof fn law_fields_of_a_handle(
    ck_offset: i64,
    pop_time: i64,
    invisible_time: i64,
    revive_qid: i32,
    topic: &str,
    broker_name: &str,
    queue_id: i32,
    msg_offset: Option<i64>,
    r: String,
    ck: &str,
    broker: Result<String, Error>,
    form: Result<String, Error>,
)
    requires
        free_of(broker_name@, ' '),
        call_ensures(
            build_extra_info,
            (ck_offset, pop_time, invisible_time, revive_qid, topic, broker_name, queue_id, msg_offset),
            r,
        ),
        ck@ == r@,
        call_ensures(get_broker_name, (ck,), broker),
        call_ensures(get_retry, (ck,), form),
    ensures
        ({
            let f = pieces(r@, " "@);
            &&& f.len() == if msg_offset is Some {
                8int
            } else {
                7
            }
            &&& parsed_int(f[0]) == Some(ck_offset as int)
            &&& parsed_int(f[1]) == Some(pop_time as int)
            &&& parsed_int(f[2]) == Some(invisible_time as int)
            &&& parsed_int(f[3]) == Some(revive_qid as int)
            &&& f[5] == broker_name@
            &&& parsed_int(f[6]) == Some(queue_id as int)
            &&& msg_offset matches Some(o) ==> parsed_int(f[7]) == Some(o as int)
            &&& broker matches Ok(b) && b@ == broker_name@
            &&& form matches Ok(x) && x@ == f[4]
            &&& f[4] == "0"@ <==> !begins_with(topic@, "%RETRY%"@)
            &&& f[4] == "2"@ <==> begins_with(topic@, "%RETRY%"@) && has_part(topic@, "+"@)
            &&& f[4] == "1"@ <==> begins_with(topic@, "%RETRY%"@) && !has_part(topic@, "+"@)
        }),
{
    reveal_strlit("0");
    reveal_strlit("1");
    reveal_strlit("2");
    assert("0"@[0] != "1"@[0] && "1"@[0] != "2"@[0] && "0"@[0] != "2"@[0]);
    let o: Option<int> = match msg_offset {
        Some(o) => Some(o as int),
        None => None,
    };
    lemma_handle_fields(
        ck_offset as int,
        pop_time as int,
        invisible_time as int,
        revive_qid as int,
        topic@,
        broker_name@,
        queue_id as int,
        o,
    );
    lemma_decimal_reads_back(ck_offset as int);
    lemma_decimal_reads_back(pop_time as int);
    lemma_decimal_reads_back(invisible_time as int);
    lemma_decimal_reads_back(revive_qid as int);
    lemma_decimal_reads_back(queue_id as int);
    if let Some(m) = msg_offset {
        lemma_decimal_reads_back(m as int);
    }
}

/// A handle with too few fields names no broker and no form of topic.
pub proof fn law_short_handle_is_malformed(ck: &str, broker: Result<String, Error>, form: Result<String, Error>)
    requires
        call_ensures(get_broker_name, (ck,), broker),
        call_ensures(get_retry, (ck,), form),
    ensures
        broker is Ok <==> pieces(ck@, " "@).len() >= 6,
        form is Ok <==> pieces(ck@, " "@).len() >= 5,
        broker matches Ok(b) ==> b@ == pieces(ck@, " "@)[5],
        form matches Ok(f) ==> f@ == pieces(ck@, " "@)[4],
        broker matches Err(e) ==> e is Client,
        form matches Err(e) ==> e is Client,
{
}

/// The text of a table with one entry for each queue: its form of topic, its number, and an
/// offset.
pub open spec fn start_texts(entries: Seq<(Seq<char>, Seq<char>, i64)>) -> Seq<Seq<char>> {
    Seq::new(entries.len(), |i: int| entries[i].0 + " "@ + entries[i].1 + " "@ + decimal(entries[i].2 as int))
}

proof fn lemma_start_entry(flag: Seq<char>, queue: Seq<char>, o: i64)
    requires
        free_of(flag, ' ') && free_of(queue, ' '),
    ensures
        start_entry(flag + " "@ + queue + " "@ + decimal(o as int)) == Some((flag + "@"@ + queue, o)),
{
    reveal_strlit(" ");
    assert(" "@ =~= seq![' ']);
    lemma_decimal_free(o as int, ' ');
    let f = seq![flag, queue, decimal(o as int)];
    reveal_with_fuel(joined, 4);
    assert(f.drop_last() =~= seq![flag, queue]);
    assert(f.drop_last().drop_last() =~= seq![flag]);
    assert(joined(f, " "@) =~= flag + " "@ + queue + " "@ + decimal(o as int));
    lemma_pieces_of_joined(f, ' ');
    lemma_decimal_reads_back(o as int);
}

proof fn lemma_start_entries(entries: Seq<(Seq<char>, Seq<char>, i64)>)
    requires
        forall|i: int| 0 <= i < entries.len() ==> free_of((#[trigger] entries[i]).0, ' ') && free_of(entries[i].1, ' '),
    ensures
        start_entries(start_texts(entries)) == Some(
            Seq::new(entries.len(), |i: int| (entries[i].0 + "@"@ + entries[i].1, entries[i].2)),
        ),
    decreases entries.len(),
{
    if entries.len() > 0 {
        let front = entries.drop_last();
        assert forall|i: int| 0 <= i < front.len() implies free_of((#[trigger] front[i]).0, ' ') && free_of(
            front[i].1,
            ' ',
        ) by {
            assert(front[i] == entries[i]);
        }
        lemma_start_entries(front);
        let last = entries.last();
        assert(entries[entries.len() - 1] == last);
        lemma_start_entry(last.0, last.1, last.2);
        assert(start_texts(entries).drop_last() =~= start_texts(front));
        assert(start_texts(entries).last() == last.0 + " "@ + last.1 + " "@ + decimal(last.2 as int));
        assert(Seq::new(entries.len(), |i: int| (entries[i].0 + "@"@ + entries[i].1, entries[i].2)) =~= Seq::new(
            front.len(),
            |i: int| (front[i].0 + "@"@ + front[i].1, front[i].2),
        ).push((last.0 + "@"@ + last.1, last.2)));
    } else {
        assert(Seq::new(entries.len(), |i: int| (entries[i].0 + "@"@ + entries[i].1, entries[i].2)) =~= Seq::<
            (Seq<char>, i64),
        >::empty());
    }
}

/// A table of first offsets is read entry by entry: each queue under its form and number, with its
/// offset, in order.
pub proof fn law_first_offsets_read_back(
    entries: Seq<(Seq<char>, Seq<char>, i64)>,
    info: &str,
    r: Result<Vec<(String, i64)>, Error>,
)
    requires
        entries.len() > 0,
        forall|i: int|
            0 <= i < entries.len() ==> free_of((#[trigger] entries[i]).0, ' ') && free_of(entries[i].1, ' ') && free_of(
                entries[i].0,
                ';',
            ) && free_of(entries[i].1, ';'),
        info@ == joined(start_texts(entries), ";"@),
        call_ensures(parse_start_offset_info, (info,), r),
    ensures
        r is Ok,
        (r->Ok_0)@.len() == entries.len(),
        forall|i: int|
            0 <= i < entries.len() ==> (#[trigger] (r->Ok_0)@[i]).0@ == entries[i].0 + "@"@ + entries[i].1 && (
            r->Ok_0)@[i].1 == entries[i].2,
{
    reveal_strlit(";");
    reveal_strlit(" ");
    assert(";"@ =~= seq![';']);
    let t = start_texts(entries);
    assert forall|i: int| 0 <= i < t.len() implies free_of(#[trigger] t[i], ';') by {
        let e = entries[i];
        lemma_decimal_free(e.2 as int, ';');
        assert(t[i] == e.0 + " "@ + e.1 + " "@ + decimal(e.2 as int));
    }
    lemma_pieces_of_joined(t, ';');
    lemma_start_entries(entries);
    let v = (r->Ok_0)@;
    assert(starts_of(v).len() == v.len());
    assert forall|i: int| 0 <= i < entries.len() implies (#[trigger] v[i]).0@ == entries[i].0 + "@"@ + entries[i].1
        && v[i].1 == entries[i].2 by {
        assert(starts_of(v)[i] == (v[i].0@, v[i].1));
    }
}

proof fn lemma_offset_list(list: Seq<i64>)
    ensures
        offset_list(Seq::new(list.len(), |i: int| decimal(list[i] as int))) == Some(list),
    decreases list.len(),
{
    let t = Seq::new(list.len(), |i: int| decimal(list[i] as int));
    if list.len() > 0 {
        let front = list.drop_last();
        lemma_offset_list(front);
        assert(t.drop_last() =~= Seq::new(front.len(), |i: int| decimal(front[i] as int)));
        lemma_decimal_reads_back(list.last() as int);
        assert(front.push(list.last()) =~= list);
    } else {
        assert(list =~= Seq::<i64>::empty());
    }
}

/// The offsets of one queue's messages are read in order, under its form and number.
pub proof fn law_message_offsets_read_back(
    flag: Seq<char>,
    queue: Seq<char>,
    list: Seq<i64>,
    info: &str,
    r: Result<Vec<(String, Vec<i64>)>, Error>,
)
    requires
        list.len() > 0,
        free_of(flag, ' ') && free_of(queue, ' ') && free_of(flag, ';') && free_of(queue, ';'),
        info@ == flag + " "@ + queue + " "@ + joined(Seq::new(list.len(), |i: int| decimal(list[i] as int)), ","@),
        call_ensures(parse_msg_offset_info, (info,), r),
    ensures
        r is Ok,
        (r->Ok_0)@.len() == 1,
        (r->Ok_0)@[0].0@ == flag + "@"@ + queue,
        (r->Ok_0)@[0].1@ == list,
{
    reveal_strlit(";");
    reveal_strlit(",");
    reveal_strlit(" ");
    assert(";"@ =~= seq![';']);
    assert(","@ =~= seq![',']);
    assert(" "@ =~= seq![' ']);
    let t = Seq::new(list.len(), |i: int| decimal(list[i] as int));
    let tail = joined(t, ","@);
    assert forall|i: int| 0 <= i < t.len() implies free_of(#[trigger] t[i], ',') && free_of(t[i], ' ') && free_of(
        t[i],
        ';',
    ) by {
        lemma_decimal_free(list[i] as int, ',');
        lemma_decimal_free(list[i] as int, ' ');
        lemma_decimal_free(list[i] as int, ';');
    }
    lemma_pieces_of_joined(t, ',');
    lemma_offset_list(list);
    lemma_joined_free(t, ","@, ' ');
    lemma_joined_free(t, ","@, ';');
    let f = seq![flag, queue, tail];
    reveal_with_fuel(joined, 4);
    assert(f.drop_last() =~= seq![flag, queue]);
    assert(f.drop_last().drop_last() =~= seq![flag]);
    assert(joined(f, " "@) =~= info@);
    lemma_pieces_of_joined(f, ' ');
    assert(free_of(info@, ';'));
    let one = seq![info@];
    assert(joined(one, ";"@) == info@);
    lemma_pieces_of_joined(one, ';');
    reveal_with_fuel(msg_entries, 2);
    assert(one.drop_last() =~= Seq::<Seq<char>>::empty());
    assert(one.last() == info@);
    let v = (r->Ok_0)@;
    assert(offsets_of(v).len() == v.len());
    assert(offsets_of(v)[0] == (v[0].0@, v[0].1@));
}

proof fn lemma_joined_free(parts: Seq<Seq<char>>, sep: Seq<char>, c: char)
    requires
        free_of(sep, c),
        forall|i: int| 0 <= i < parts.len() ==> free_of(#[trigger] parts[i], c),
    ensures
        free_of(joined(parts, sep), c),
    decreases parts.len(),
{
    if parts.len() > 1 {
        let front = parts.drop_last();
        assert forall|i: int| 0 <= i < front.len() implies free_of(#[trigger] front[i], c) by {
            assert(front[i] == parts[i]);
        }
        lemma_joined_free(front, sep, c);
        assert(free_of(parts[parts.len() - 1], c));
    }
}

} // verus!
