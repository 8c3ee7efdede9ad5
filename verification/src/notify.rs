//! Text the notifier sends: HTML-escaping of job fields, humanizing of raw
//! job-type codes, and the batch message layout.

use vstd::prelude::*;

use crate::model::{JobInfo, NotificationBatch};
use crate::text::{chars_to_string, push_str_chars, str_chars, trim_chars, trim_spec};

verus! {

/// What one char of untrusted text becomes inside an HTML message.
pub open spec fn escape_char(c: char) -> Seq<char> {
    if c == '&' {
        seq!['&', 'a', 'm', 'p', ';']
    } else if c == '<' {
        seq!['&', 'l', 't', ';']
    } else if c == '>' {
        seq!['&', 'g', 't', ';']
    } else {
        seq![c]
    }
}

/// The text with `&`, `<` and `>` replaced by their HTML entities.
pub open spec fn escape_spec(s: Seq<char>) -> Seq<char>
    decreases s.len(),
{
    if s.len() == 0 {
        Seq::empty()
    } else {
        escape_spec(s.drop_last()) + escape_char(s.last())
    }
}

/// Escapes text for safe embedding in an HTML message.
pub fn escape_html(text: &str) -> (r: String)
    ensures
        r@ == escape_spec(text@),
{
    let n = text.unicode_len();
    let mut out: Vec<char> = Vec::new();
    let mut i: usize = 0;
    proof {
        assert(text@.subrange(0, 0) =~= Seq::<char>::empty());
    }
    while i < n
        invariant
            i <= n,
            n == text@.len(),
            out@ == escape_spec(text@.subrange(0, i as int)),
        decreases n - i,
    {
        let ghost prefix = text@.subrange(0, i as int);
        proof {
            assert(text@.subrange(0, i as int + 1).drop_last() =~= prefix);
        }
        let c = text.get_char(i);
        if c == '&' {
            out.push('&');
            out.push('a');
            out.push('m');
            out.push('p');
            out.push(';');
        } else if c == '<' {
            out.push('&');
            out.push('l');
            out.push('t');
            out.push(';');
        } else if c == '>' {
            out.push('&');
            out.push('g');
            out.push('t');
            out.push(';');
        } else {
            out.push(c);
        }
        proof {
            assert(out@ =~= escape_spec(prefix) + escape_char(text@[i as int]));
        }
        i = i + 1;
    }
    proof {
        assert(text@.subrange(0, text@.len() as int) =~= text@);
    }
    chars_to_string(&out)
}

/// The char with an ASCII lower-case letter raised to upper case.
pub open spec fn to_upper_char(c: char) -> char {
    if 97 <= c as u32 && c as u32 <= 122 {
        ((c as u32 - 32) as u8) as char
    } else {
        c
    }
}

/// The char with an ASCII upper-case letter lowered to lower case.
pub open spec fn to_lower_char(c: char) -> char {
    if 65 <= c as u32 && c as u32 <= 90 {
        ((c as u32 + 32) as u8) as char
    } else {
        c
    }
}

/// ASCII upper-casing of a whole field.
pub open spec fn upper_seq(s: Seq<char>) -> Seq<char> {
    s.map_values(|c: char| to_upper_char(c))
}

/// ASCII lower-casing of a whole field.
pub open spec fn lower_seq(s: Seq<char>) -> Seq<char> {
    s.map_values(|c: char| to_lower_char(c))
}

/// The text split on a separator: `cur` is the field being accumulated.
pub open spec fn split_rec(s: Seq<char>, sep: char, cur: Seq<char>) -> Seq<Seq<char>>
    decreases s.len(),
{
    if s.len() == 0 {
        seq![cur]
    } else if s[0] == sep {
        seq![cur] + split_rec(s.drop_first(), sep, Seq::empty())
    } else {
        split_rec(s.drop_first(), sep, cur.push(s[0]))
    }
}

/// The fields of the text, split on a separator; always at least one field.
pub open spec fn split_on(s: Seq<char>, sep: char) -> Seq<Seq<char>> {
    split_rec(s, sep, Seq::empty())
}

/// The views of a vector of char buffers.
pub open spec fn views_of(v: Seq<Vec<char>>) -> Seq<Seq<char>> {
    v.map_values(|x: Vec<char>| x@)
}

/// Fields joined by a separator, in order.
pub open spec fn join_with(parts: Seq<Seq<char>>, sep: Seq<char>) -> Seq<char>
    decreases parts.len(),
{
    if parts.len() == 0 {
        Seq::empty()
    } else if parts.len() == 1 {
        parts[0]
    } else {
        join_with(parts.drop_last(), sep) + sep + parts.last()
    }
}

/// A word lower-cased with its first letter capitalized.
pub open spec fn title_word(w: Seq<char>) -> Seq<char> {
    let l = lower_seq(w);
    if l.len() == 0 {
        l
    } else {
        seq![to_upper_char(l[0])] + l.drop_first()
    }
}

/// An unrecognized code rendered readable: its underscore-separated words
/// title-cased and joined by spaces.
pub open spec fn title_words(u: Seq<char>) -> Seq<char> {
    join_with(split_on(u, '_').map_values(|w: Seq<char>| title_word(w)), " "@)
}

/// The label of one job-type field: trimmed and upper-cased, the known codes
/// mapped to their short names, anything else title-cased word by word.
pub open spec fn part_label(part: Seq<char>) -> Seq<char> {
    let u = upper_seq(trim_spec(part));
    if u == "FLEX_TIME"@ {
        "Flex"@
    } else if u == "FULL_TIME"@ {
        "Full"@
    } else if u == "PART_TIME"@ {
        "Part"@
    } else if u == "SEASONAL"@ {
        "Seasonal"@
    } else if u == "REDUCED_TIME"@ {
        "Reduced"@
    } else {
        title_words(u)
    }
}

/// The readable rendering of a raw job-type code: each `;`-separated field
/// labelled, the labels joined by `/ `, and ` time` appended.
pub open spec fn humanize_spec(raw: Seq<char>) -> Seq<char> {
    join_with(split_on(raw, ';').map_values(|p: Seq<char>| part_label(p)), "/ "@) + " time"@
}

/// Whether a buffer holds exactly the chars of a string slice.
fn eq_str_chars(v: &Vec<char>, s: &str) -> (r: bool)
    ensures
        r == (v@ == s@),
{
    let n = s.unicode_len();
    if v.len() != n {
        proof {
            assert(v@ != s@);
        }
        return false;
    }
    let mut i: usize = 0;
    while i < n
        invariant
            i <= n,
            n == s@.len(),
            n == v@.len(),
            forall|k: int| 0 <= k < i ==> v@[k] == s@[k],
        decreases n - i,
    {
        if v[i] != s.get_char(i) {
            proof {
                assert(v@ != s@);
            }
            return false;
        }
        i = i + 1;
    }
    proof {
        assert(v@ =~= s@);
    }
    true
}

/// Splits a buffer on a separator char.
fn split_chars(s: &Vec<char>, sep: char) -> (parts: Vec<Vec<char>>)
    ensures
        views_of(parts@) == split_on(s@, sep),
        parts@.len() > 0,
{
    let mut parts: Vec<Vec<char>> = Vec::new();
    let mut cur: Vec<char> = Vec::new();
    let mut i: usize = 0;
    proof {
        assert(s@.skip(0) =~= s@);
        assert(views_of(parts@) =~= Seq::<Seq<char>>::empty());
        assert(Seq::<Seq<char>>::empty() + split_rec(s@, sep, Seq::empty()) =~= split_rec(
            s@,
            sep,
            Seq::empty(),
        ));
    }
    while i < s.len()
        invariant
            i <= s@.len(),
            split_on(s@, sep) == views_of(parts@) + split_rec(s@.skip(i as int), sep, cur@),
        decreases s@.len() - i,
    {
        let ghost rest = s@.skip(i as int);
        proof {
            assert(rest.drop_first() =~= s@.skip(i as int + 1));
            assert(rest[0] == s@[i as int]);
        }
        let c = s[i];
        if c == sep {
            parts.push(cur);
            cur = Vec::new();
            proof {
                assert(views_of(parts@) =~= views_of(parts@.drop_last()) + seq![
                    parts@.last()@,
                ]);
                assert(views_of(parts@) + split_rec(s@.skip(i as int + 1), sep, Seq::empty())
                    =~= views_of(parts@.drop_last()) + (seq![parts@.last()@] + split_rec(
                    s@.skip(i as int + 1),
                    sep,
                    Seq::empty(),
                )));
            }
        } else {
            cur.push(c);
        }
        i = i + 1;
    }
    proof {
        assert(s@.skip(s@.len() as int).len() == 0);
    }
    parts.push(cur);
    proof {
        assert(views_of(parts@) =~= views_of(parts@.drop_last()) + seq![parts@.last()@]);
        assert(views_of(parts@.drop_last()) + seq![parts@.last()@] =~= views_of(
            parts@.drop_last(),
        ) + split_rec(Seq::empty(), sep, parts@.last()@));
        assert(views_of(parts@) =~= split_on(s@, sep));
    }
    parts
}

fn to_upper_exec(c: char) -> (r: char)
    ensures
        r == to_upper_char(c),
{
    let u = c as u32;
    if 97 <= u && u <= 122 {
        ((u - 32) as u8) as char
    } else {
        c
    }
}

fn to_lower_exec(c: char) -> (r: char)
    ensures
        r == to_lower_char(c),
{
    let u = c as u32;
    if 65 <= u && u <= 90 {
        ((u + 32) as u8) as char
    } else {
        c
    }
}

fn map_upper(v: &Vec<char>) -> (r: Vec<char>)
    ensures
        r@ == upper_seq(v@),
{
    let mut r: Vec<char> = Vec::new();
    let mut i: usize = 0;
    while i < v.len()
        invariant
            i <= v@.len(),
            r@.len() == i,
            forall|k: int| 0 <= k < i ==> r@[k] == to_upper_char(v@[k]),
        decreases v@.len() - i,
    {
        r.push(to_upper_exec(v[i]));
        i = i + 1;
    }
    proof {
        assert(r@ =~= upper_seq(v@));
    }
    r
}

fn map_lower(v: &Vec<char>) -> (r: Vec<char>)
    ensures
        r@ == lower_seq(v@),
{
    let mut r: Vec<char> = Vec::new();
    let mut i: usize = 0;
    while i < v.len()
        invariant
            i <= v@.len(),
            r@.len() == i,
            forall|k: int| 0 <= k < i ==> r@[k] == to_lower_char(v@[k]),
        decreases v@.len() - i,
    {
        r.push(to_lower_exec(v[i]));
        i = i + 1;
    }
    proof {
        assert(r@ =~= lower_seq(v@));
    }
    r
}

fn title_word_exec(w: &Vec<char>) -> (r: Vec<char>)
    ensures
        r@ == title_word(w@),
{
    let l = map_lower(w);
    if l.len() == 0 {
        l
    } else {
        let mut r: Vec<char> = Vec::new();
        r.push(to_upper_exec(l[0]));
        let mut i: usize = 1;
        while i < l.len()
            invariant
                1 <= i <= l@.len(),
                r@.len() == i,
                r@[0] == to_upper_char(l@[0]),
                forall|k: int| 1 <= k < i ==> r@[k] == l@[k],
            decreases l@.len() - i,
        {
            r.push(l[i]);
            i = i + 1;
        }
        proof {
            assert(r@ =~= seq![to_upper_char(l@[0])] + l@.drop_first());
        }
        r
    }
}

/// Joins labelled fields with a separator.
fn join_labels(labels: &Vec<Vec<char>>, sep: &str) -> (r: Vec<char>)
    ensures
        r@ == join_with(views_of(labels@), sep@),
{
    let mut out: Vec<char> = Vec::new();
    let mut i: usize = 0;
    proof {
        assert(views_of(labels@).take(0) =~= Seq::<Seq<char>>::empty());
    }
    while i < labels.len()
        invariant
            i <= labels@.len(),
            out@ == join_with(views_of(labels@).take(i as int), sep@),
        decreases labels@.len() - i,
    {
        proof {
            assert(views_of(labels@).take(i as int + 1).drop_last() =~= views_of(
                labels@,
            ).take(i as int));
            assert(views_of(labels@).take(i as int + 1).last() == labels@[i as int]@);
        }
        if i > 0 {
            crate::text::push_str_chars(&mut out, sep);
        }
        let mut j: usize = 0;
        let ghost mid = out@;
        while j < labels[i].len()
            invariant
                j <= labels@[i as int]@.len(),
                i < labels@.len(),
                out@ == mid + labels@[i as int]@.subrange(0, j as int),
            decreases labels@[i as int]@.len() - j,
        {
            out.push(labels[i][j]);
            proof {
                assert(mid + labels@[i as int]@.subrange(0, j as int + 1) =~= (mid + labels@[
                    i as int
                ]@.subrange(0, j as int)).push(labels@[i as int]@[j as int]));
            }
            j = j + 1;
        }
        proof {
            assert(labels@[i as int]@.subrange(0, labels@[i as int]@.len() as int) =~= labels@[
                i as int
            ]@);
            assert(mid + labels@[i as int]@.subrange(0, 0) =~= mid);
            if i == 0 {
                assert(out@ =~= labels@[0]@);
                assert(out@ =~= join_with(views_of(labels@).take(1), sep@));
            }
        }
        i = i + 1;
    }
    proof {
        assert(views_of(labels@).take(labels@.len() as int) =~= views_of(labels@));
    }
    out
}

fn label_of_part(part: &Vec<char>) -> (r: Vec<char>)
    ensures
        r@ == part_label(part@),
{
    let t = trim_chars(part);
    let u = map_upper(&t);
    if eq_str_chars(&u, "FLEX_TIME") {
        str_chars("Flex")
    } else if eq_str_chars(&u, "FULL_TIME") {
        str_chars("Full")
    } else if eq_str_chars(&u, "PART_TIME") {
        str_chars("Part")
    } else if eq_str_chars(&u, "SEASONAL") {
        str_chars("Seasonal")
    } else if eq_str_chars(&u, "REDUCED_TIME") {
        str_chars("Reduced")
    } else {
        let words = split_chars(&u, '_');
        let mut titled: Vec<Vec<char>> = Vec::new();
        let mut i: usize = 0;
        while i < words.len()
            invariant
                i <= words@.len(),
                titled@.len() == i,
                forall|k: int| 0 <= k < i ==> titled@[k]@ == title_word(words@[k]@),
            decreases words@.len() - i,
        {
            titled.push(title_word_exec(&words[i]));
            i = i + 1;
        }
        proof {
            assert(views_of(titled@) =~= split_on(u@, '_').map_values(
                |w: Seq<char>| title_word(w),
            ));
        }
        join_labels(&titled, " ")
    }
}

/// The decimal digit char for a value below ten.
pub open spec fn digit_char(d: nat) -> char {
    ((48 + d) as u8) as char
}

/// The decimal rendering of a natural number, most significant digit first.
pub open spec fn dec_spec(n: nat) -> Seq<char>
    decreases n,
{
    if n < 10 {
        seq![digit_char(n)]
    } else {
        dec_spec(n / 10).push(digit_char(n % 10))
    }
}

/// The decimal rendering of a possibly negative count.
pub open spec fn int_dec_spec(n: int) -> Seq<char> {
    if n < 0 {
        seq!['-'] + dec_spec((-n) as nat)
    } else {
        dec_spec(n as nat)
    }
}

/// A cent amount rendered as dollars with two decimals.
pub open spec fn money_spec(cents: u64) -> Seq<char> {
    dec_spec(cents as nat / 100) + seq!['.', digit_char(
        (cents as nat % 100) / 10,
    ), digit_char(cents as nat % 10)]
}

/// Appends the decimal rendering of a value.
fn push_dec(out: &mut Vec<char>, n: u64)
    ensures
        final(out)@ == old(out)@ + dec_spec(n as nat),
    decreases n,
{
    if n < 10 {
        let d: u8 = 48 + (n as u8);
        out.push(d as char);
        proof {
            assert(out@ =~= old(out)@ + dec_spec(n as nat));
        }
    } else {
        push_dec(out, n / 10);
        let d: u8 = 48 + ((n % 10) as u8);
        out.push(d as char);
        proof {
            assert(out@ =~= old(out)@ + dec_spec(n as nat));
        }
    }
}

/// Appends a possibly negative count.
fn push_int_dec(out: &mut Vec<char>, n: i64)
    ensures
        final(out)@ == old(out)@ + int_dec_spec(n as int),
{
    if n < 0 {
        out.push('-');
        let m: u64 = ((-(n as i128)) as u128) as u64;
        push_dec(out, m);
        proof {
            assert(out@ =~= old(out)@ + int_dec_spec(n as int));
        }
    } else {
        push_dec(out, n as u64);
    }
}

/// Appends a cent amount as dollars with two decimals.
fn push_money(out: &mut Vec<char>, cents: u64)
    ensures
        final(out)@ == old(out)@ + money_spec(cents),
{
    push_dec(out, cents / 100);
    out.push('.');
    let tens: u8 = 48 + (((cents % 100) / 10) as u8);
    out.push(tens as char);
    let ones: u8 = 48 + ((cents % 10) as u8);
    out.push(ones as char);
    proof {
        assert(out@ =~= old(out)@ + money_spec(cents));
    }
}

/// The message block one job contributes.
pub open spec fn job_block_spec(j: JobInfo) -> Seq<char> {
    "<b>"@ + escape_spec(j.title@) + "</b>\n- Type: "@ + humanize_spec(j.job_type@)
        + "\n- Shifts: "@ + int_dec_spec(j.shift as int) + "\n- Pay: $"@ + money_spec(
        j.pay_min_cents,
    ) + "-$"@ + money_spec(j.pay_max_cents) + "/hr\n═══════════════════\n"@
}

/// The blocks of a batch's jobs, in order.
pub open spec fn job_blocks_spec(jobs: Seq<JobInfo>) -> Seq<char>
    decreases jobs.len(),
{
    if jobs.len() == 0 {
        Seq::empty()
    } else {
        job_blocks_spec(jobs.drop_last()) + job_block_spec(jobs.last())
    }
}

/// The whole message a batch is delivered as.
pub open spec fn batch_message_spec(location: Seq<char>, jobs: Seq<JobInfo>) -> Seq<char> {
    "<b>New Jobs in "@ + escape_spec(location) + "</b>\n═══════════════════\n"@
        + job_blocks_spec(jobs)
}

/// Builds the text message for one batch: a header naming the location and
/// one block per job, fields escaped for safe HTML embedding and the job type
/// humanized.
pub fn format_batch_message(batch: &NotificationBatch) -> (r: String)
    ensures
        r@ == batch_message_spec(batch.location@, batch.jobs@),
{
    let mut out: Vec<char> = Vec::new();
    push_str_chars(&mut out, "<b>New Jobs in ");
    let loc = escape_html(batch.location.as_str());
    push_str_chars(&mut out, loc.as_str());
    push_str_chars(&mut out, "</b>\n═══════════════════\n");
    let ghost header = out@;
    let mut i: usize = 0;
    proof {
        assert(header + job_blocks_spec(batch.jobs@.subrange(0, 0)) =~= header);
    }
    while i < batch.jobs.len()
        invariant
            i <= batch.jobs@.len(),
            out@ == header + job_blocks_spec(batch.jobs@.subrange(0, i as int)),
            header == "<b>New Jobs in "@ + escape_spec(batch.location@)
                + "</b>\n═══════════════════\n"@,
        decreases batch.jobs@.len() - i,
    {
        proof {
            assert(batch.jobs@.subrange(0, i as int + 1).drop_last() =~= batch.jobs@.subrange(
                0,
                i as int,
            ));
        }
        let job = &batch.jobs[i];
        push_str_chars(&mut out, "<b>");
        let title = escape_html(job.title.as_str());
        push_str_chars(&mut out, title.as_str());
        push_str_chars(&mut out, "</b>\n- Type: ");
        let jt = humanize_job_type(job.job_type.as_str());
        push_str_chars(&mut out, jt.as_str());
        push_str_chars(&mut out, "\n- Shifts: ");
        push_int_dec(&mut out, job.shift);
        push_str_chars(&mut out, "\n- Pay: $");
        push_money(&mut out, job.pay_min_cents);
        push_str_chars(&mut out, "-$");
        push_money(&mut out, job.pay_max_cents);
        push_str_chars(&mut out, "/hr\n═══════════════════\n");
        proof {
            assert(out@ =~= header + job_blocks_spec(batch.jobs@.subrange(0, i as int + 1)));
        }
        i = i + 1;
    }
    proof {
        assert(batch.jobs@.subrange(0, batch.jobs@.len() as int) =~= batch.jobs@);
    }
    chars_to_string(&out)
}

/// Renders a raw job-type code readable, in place of its specification.
pub fn humanize_job_type(raw: &str) -> (r: String)
    ensures
        r@ == humanize_spec(raw@),
{
    let chars = str_chars(raw);
    let parts = split_chars(&chars, ';');
    let mut labels: Vec<Vec<char>> = Vec::new();
    let mut i: usize = 0;
    while i < parts.len()
        invariant
            i <= parts@.len(),
            labels@.len() == i,
            forall|k: int| 0 <= k < i ==> labels@[k]@ == part_label(parts@[k]@),
        decreases parts@.len() - i,
    {
        labels.push(label_of_part(&parts[i]));
        i = i + 1;
    }
    proof {
        assert(views_of(labels@) =~= split_on(raw@, ';').map_values(
            |p: Seq<char>| part_label(p),
        ));
    }
    let mut out = join_labels(&labels, "/ ");
    crate::text::push_str_chars(&mut out, " time");
    chars_to_string(&out)
}

} // verus!
