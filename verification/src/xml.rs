//! Escaping of text placed in XML character data.
use vstd::prelude::*;

verus! {

pub open spec fn amp_entity() -> Seq<char> {
    seq!['&', 'a', 'm', 'p', ';']
}

pub open spec fn lt_entity() -> Seq<char> {
    seq!['&', 'l', 't', ';']
}

pub open spec fn gt_entity() -> Seq<char> {
    seq!['&', 'g', 't', ';']
}

pub open spec fn quot_entity() -> Seq<char> {
    seq!['&', 'q', 'u', 'o', 't', ';']
}

/// The XML text of one character: `&`, `<`, `>` and `"` become entities.
pub open spec fn escape_char(c: char) -> Seq<char> {
    if c == '&' {
        amp_entity()
    } else if c == '<' {
        lt_entity()
    } else if c == '>' {
        gt_entity()
    } else if c == '"' {
        quot_entity()
    } else {
        seq![c]
    }
}

/// The XML text of `s`, each character escaped.
pub open spec fn xml_escape(s: Seq<char>) -> Seq<char>
    decreases s.len(),
{
    if s.len() == 0 {
        Seq::empty()
    } else {
        escape_char(s[0]) + xml_escape(s.drop_first())
    }
}

/// What an XML reader makes of character data holding the four entities.
pub open spec fn xml_unescape(s: Seq<char>) -> Seq<char>
    decreases s.len(),
{
    if s.len() == 0 {
        Seq::empty()
    } else if s.len() >= 5 && s.take(5) == amp_entity() {
        seq!['&'] + xml_unescape(s.skip(5))
    } else if s.len() >= 4 && s.take(4) == lt_entity() {
        seq!['<'] + xml_unescape(s.skip(4))
    } else if s.len() >= 4 && s.take(4) == gt_entity() {
        seq!['>'] + xml_unescape(s.skip(4))
    } else if s.len() >= 6 && s.take(6) == quot_entity() {
        seq!['"'] + xml_unescape(s.skip(6))
    } else {
        seq![s[0]] + xml_unescape(s.drop_first())
    }
}

proof fn lemma_escape_push(s: Seq<char>, c: char)
    ensures
        xml_escape(s.push(c)) == xml_escape(s) + escape_char(c),
    decreases s.len(),
{
    if s.len() == 0 {
        assert(s.push(c).drop_first() =~= Seq::<char>::empty());
        assert(s.push(c)[0] == c);
        assert(xml_escape(s.push(c).drop_first()) =~= Seq::<char>::empty());
        assert(xml_escape(s) =~= Seq::<char>::empty());
        assert(xml_escape(s.push(c)) =~= xml_escape(s) + escape_char(c));
    } else {
        assert(s.push(c).drop_first() =~= s.drop_first().push(c));
        lemma_escape_push(s.drop_first(), c);
        assert(xml_escape(s.push(c)) =~= xml_escape(s) + escape_char(c));
    }
}

proof fn lemma_unescape_char(c: char, rest: Seq<char>)
    ensures
        xml_unescape(escape_char(c) + rest) == seq![c] + xml_unescape(rest),
{
    let e = escape_char(c);
    let s = e + rest;
    if c == '&' {
        assert(s.take(5) =~= amp_entity());
        assert(s.skip(5) =~= rest);
    } else if c == '<' {
        assert(s[1] == 'l');
        assert(s.take(4) =~= lt_entity());
        assert(s.skip(4) =~= rest);
        assert(s.len() < 5 || s.take(5)[1] != amp_entity()[1]);
    } else if c == '>' {
        assert(s[1] == 'g');
        assert(s.take(4) =~= gt_entity());
        assert(s.skip(4) =~= rest);
        assert(s.len() < 5 || s.take(5)[1] != amp_entity()[1]);
        assert(s.take(4)[1] != lt_entity()[1]);
    } else if c == '"' {
        assert(s[1] == 'q');
        assert(s.take(6) =~= quot_entity());
        assert(s.skip(6) =~= rest);
        assert(s.take(5)[1] != amp_entity()[1]);
        assert(s.take(4)[1] != lt_entity()[1]);
        assert(s.take(4)[1] != gt_entity()[1]);
    } else {
        assert(s[0] == c);
        assert(s.len() < 5 || s.take(5)[0] != amp_entity()[0]);
        assert(s.len() < 4 || s.take(4)[0] != lt_entity()[0]);
        assert(s.len() < 4 || s.take(4)[0] != gt_entity()[0]);
        assert(s.len() < 6 || s.take(6)[0] != quot_entity()[0]);
        assert(s.drop_first() =~= rest);
    }
}

/// Escaped text reads back as the text itself: an XML reader recovers every
/// name, identifier and description placed in a plist.
pub proof fn law_xml_escape_reads_back(s: Seq<char>)
    ensures
        xml_unescape(xml_escape(s)) == s,
    decreases s.len(),
{
    if s.len() > 0 {
        lemma_unescape_char(s[0], xml_escape(s.drop_first()));
        law_xml_escape_reads_back(s.drop_first());
        assert(seq![s[0]] + s.drop_first() =~= s);
    }
}

/// Escaped text holds no `<`, `>` or `"`, so it cannot end or open an element
/// or an attribute value.
pub proof fn law_xml_escape_has_no_markup(s: Seq<char>)
    ensures
        forall|i: int|
            0 <= i < xml_escape(s).len() ==> #[trigger] xml_escape(s)[i] != '<' && xml_escape(s)[i]
                != '>' && xml_escape(s)[i] != '"',
    decreases s.len(),
{
    if s.len() > 0 {
        law_xml_escape_has_no_markup(s.drop_first());
        let e = escape_char(s[0]);
        let t = xml_escape(s.drop_first());
        assert forall|i: int| 0 <= i < xml_escape(s).len() implies #[trigger] xml_escape(s)[i] != '<'
            && xml_escape(s)[i] != '>' && xml_escape(s)[i] != '"' by {
            if i < e.len() {
                assert(xml_escape(s)[i] == e[i]);
            } else {
                assert(xml_escape(s)[i] == t[i - e.len()]);
            }
        }
    }
}

/// The text with `&`, `<`, `>` and `"` replaced by their XML entities.
pub fn escape_xml(s: &str) -> (r: String)
    ensures
        r@ == xml_escape(s@),
{
    proof {
        reveal_strlit("&amp;");
        reveal_strlit("&lt;");
        reveal_strlit("&gt;");
        reveal_strlit("&quot;");
        assert("&amp;"@ =~= amp_entity());
        assert("&lt;"@ =~= lt_entity());
        assert("&gt;"@ =~= gt_entity());
        assert("&quot;"@ =~= quot_entity());
    }
    let n = s.unicode_len();
    let mut r = String::new();
    let mut i: usize = 0;
    assert(s@.take(0) =~= Seq::<char>::empty());
    while i < n
        invariant
            n == s@.len(),
            i <= n,
            r@ == xml_escape(s@.take(i as int)),
            "&amp;"@ == amp_entity(),
            "&lt;"@ == lt_entity(),
            "&gt;"@ == gt_entity(),
            "&quot;"@ == quot_entity(),
        decreases n - i,
    {
        let c = s.get_char(i);
        if c == '&' {
            r.append("&amp;");
        } else if c == '<' {
            r.append("&lt;");
        } else if c == '>' {
            r.append("&gt;");
        } else if c == '"' {
            r.append("&quot;");
        } else {
            let one = s.substring_char(i, i + 1);
            assert(one@ =~= seq![c]);
            r.append(one);
        }
        proof {
            assert(s@.take(i + 1) =~= s@.take(i as int).push(c));
            lemma_escape_push(s@.take(i as int), c);
        }
        i = i + 1;
    }
    assert(s@.take(n as int) =~= s@);
    r
}

} // verus!
