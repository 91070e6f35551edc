//! General facts about parsing a command line.

use vstd::prelude::*;

use crate::parser::{apply_payload_spec, config_flag, initial_arguments, parse_spec, scan_spec};
use crate::text::{
    lemma_split_spaces_append_word, lemma_split_spaces_push_space, split_spaces_spec,
    strip_quotes_spec,
};
use crate::{ArgumentsAction, ParsedArguments};

verus! {

/// The payloads of `--config` that set the action rather than the path.
pub open spec fn is_config_keyword(p: Seq<char>) -> bool {
    p == "+verify"@ || p == "+generate"@ || p == "help"@ || p == "+help"@
}

/// A scan that gets through `t1` carries on into `t2` from where it stopped.
pub proof fn lemma_scan_append(t1: Seq<Seq<char>>, t2: Seq<Seq<char>>, st: ParsedArguments)
    requires
        scan_spec(t1, st) is Ok,
    ensures
        scan_spec(t1 + t2, st) == scan_spec(t2, scan_spec(t1, st)->Ok_0),
    decreases t1.len(),
{
    if t1.len() == 0 {
        assert(t1 + t2 =~= t2);
    } else if t1[0] == config_flag() {
        assert((t1 + t2)[0] == t1[0]);
        assert((t1 + t2)[1] == t1[1]);
        assert((t1 + t2).skip(2) =~= t1.skip(2) + t2);
        lemma_scan_append(t1.skip(2), t2, apply_payload_spec(st, t1[1]));
    } else {
        assert((t1 + t2)[0] == t1[0]);
        assert((t1 + t2).skip(1) =~= t1.skip(1) + t2);
        lemma_scan_append(t1.skip(1), t2, st);
    }
}

/// The tokens of `s + " --config " + p` are those of `s`, then `--config`
/// and `p`, when `p` holds no space.
pub proof fn lemma_split_directive_appended(s: Seq<char>, p: Seq<char>)
    requires
        !p.contains(' '),
    ensures
        split_spaces_spec(s + " --config "@ + p) == split_spaces_spec(s) + seq![config_flag(), p],
{
    reveal_strlit("--config");
    reveal_strlit(" --config ");
    let flag = config_flag();
    assert(!flag.contains(' ')) by {
        if flag.contains(' ') {
            let i = choose|i: int| 0 <= i < flag.len() && flag[i] == ' ';
            assert(flag[i] != ' ');
        }
    }
    let s1 = s.push(' ');
    let s2 = s1 + flag;
    let s3 = s2.push(' ');
    assert(s + " --config "@ + p =~= s3 + p);
    let t = split_spaces_spec(s);
    lemma_split_spaces_push_space(s);
    lemma_split_spaces_append_word(s1, flag);
    assert(Seq::<char>::empty() + flag =~= flag);
    assert(split_spaces_spec(s2) =~= t.push(flag));
    lemma_split_spaces_push_space(s2);
    lemma_split_spaces_append_word(s3, p);
    assert(Seq::<char>::empty() + p =~= p);
    assert(split_spaces_spec(s3 + p) =~= t + seq![flag, p]);
}

/// Last write wins: appending `--config <p>` to a command line that parses
/// gives what it gave, with the one field that `p` sets replaced, and the
/// other field kept.
pub proof fn lemma_directive_appended(s: Seq<char>, p: Seq<char>)
    requires
        parse_spec(s) is Ok,
        !p.contains(' '),
    ensures
        parse_spec(s + " --config "@ + p) == Ok::<ParsedArguments, Seq<char>>(
            apply_payload_spec(parse_spec(s)->Ok_0, p),
        ),
        is_config_keyword(strip_quotes_spec(p)) ==> parse_spec(s + " --config "@ + p)->Ok_0.path
            == parse_spec(s)->Ok_0.path,
        !is_config_keyword(strip_quotes_spec(p)) ==> parse_spec(s + " --config "@ + p)->Ok_0
            == (ParsedArguments { path: Some(strip_quotes_spec(p)), ..parse_spec(s)->Ok_0 }),
{
    lemma_split_directive_appended(s, p);
    let t2 = seq![config_flag(), p];
    let st = parse_spec(s)->Ok_0;
    lemma_scan_append(split_spaces_spec(s), t2, initial_arguments());
    assert(t2[0] == config_flag() && t2[1] == p);
    assert(t2.skip(2) =~= Seq::<Seq<char>>::empty());
    assert(scan_spec(t2, st) == scan_spec(t2.skip(2), apply_payload_spec(st, p)));
}

/// A lone `--config <p>`, where `p` holds no space and is no keyword once its
/// quotes are gone, sets the path to `p` without its quotes and leaves the
/// usual action.
pub proof fn lemma_lone_path_directive(p: Seq<char>)
    requires
        !p.contains(' '),
        !is_config_keyword(strip_quotes_spec(p)),
    ensures
        parse_spec("--config "@ + p) == Ok::<ParsedArguments, Seq<char>>(
            ParsedArguments {
                path: Some(strip_quotes_spec(p)),
                action: ArgumentsAction::ProceedAsUsual,
            },
        ),
{
    reveal_strlit("--config");
    reveal_strlit("--config ");
    let flag = config_flag();
    assert(!flag.contains(' ')) by {
        if flag.contains(' ') {
            let i = choose|i: int| 0 <= i < flag.len() && flag[i] == ' ';
            assert(flag[i] != ' ');
        }
    }
    let e = Seq::<char>::empty();
    assert(e + flag =~= flag);
    lemma_split_spaces_append_word(e, flag);
    assert(split_spaces_spec(flag) =~= seq![flag]);
    lemma_split_spaces_push_space(flag);
    assert("--config "@ =~= flag.push(' '));
    lemma_split_spaces_append_word(flag.push(' '), p);
    assert(e + p =~= p);
    let t = split_spaces_spec("--config "@ + p);
    assert(t =~= seq![flag, p]);
    assert(t[0] == flag && t[1] == p);
    assert(t.skip(2) =~= Seq::<Seq<char>>::empty());
    assert(scan_spec(t, initial_arguments()) == scan_spec(
        t.skip(2),
        apply_payload_spec(initial_arguments(), p),
    ));
}

/// Parsing depends on the command line alone: equal lines give equal
/// outcomes, however often they are parsed.
pub proof fn lemma_parse_deterministic(a: Seq<char>, b: Seq<char>)
    requires
        a == b,
    ensures
        parse_spec(a) == parse_spec(b),
{
}

} // verus!
