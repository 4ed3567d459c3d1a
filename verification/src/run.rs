//! Orchestration: generate the configured number of identifiers and
//! assemble, in generation order, every line the invocation prints.

use vstd::prelude::*;
use crate::config::{Config, OutputFormat, UuidType};
use crate::render::{
    block_spec, data_count, lemma_block_len, quiet_line, quiet_line_spec, verbose_block,
};
use crate::source::{layout_ok, UuidValue};

verus! {

/// The one environment failure a run can meet: the wall clock, which
/// time-ordered generation needs, could not be read.
#[derive(Copy, Clone, PartialEq, Eq, Structural, Debug)]
pub enum RunError {
    ClockUnreadable,
}

/// The lines one identifier contributes: a bare value in quiet mode,
/// a whole verbose block otherwise.
pub open spec fn item_lines_spec(cfg: Config, bs: Seq<u8>) -> Seq<Seq<char>> {
    if cfg.quiet {
        seq![quiet_line_spec(cfg.format, bs)]
    } else {
        block_spec(cfg.uuid_type, cfg.format, bs)
    }
}

/// The separator between two identifiers' output: a blank line in
/// verbose mode, nothing in quiet mode.
pub open spec fn sep_spec(cfg: Config) -> Seq<Seq<char>> {
    if cfg.quiet {
        Seq::empty()
    } else {
        seq![Seq::<char>::empty()]
    }
}

/// Every output line for a sequence of identifiers, in generation
/// order, with a separator between neighbours and none at the ends.
pub open spec fn output_spec(cfg: Config, us: Seq<Seq<u8>>) -> Seq<Seq<char>>
    decreases us.len(),
{
    if us.len() == 0 {
        Seq::empty()
    } else {
        item_lines_spec(cfg, us[0]) + rest_spec(cfg, us.drop_first())
    }
}

/// The output lines of every identifier after the first, each with
/// its leading separator.
pub open spec fn rest_spec(cfg: Config, us: Seq<Seq<u8>>) -> Seq<Seq<char>>
    decreases us.len(),
{
    if us.len() == 0 {
        Seq::empty()
    } else {
        sep_spec(cfg) + item_lines_spec(cfg, us[0]) + rest_spec(cfg, us.drop_first())
    }
}

proof fn lemma_rest_push(cfg: Config, us: Seq<Seq<u8>>, b: Seq<u8>)
    ensures
        rest_spec(cfg, us.push(b)) =~= rest_spec(cfg, us) + sep_spec(cfg) + item_lines_spec(
            cfg,
            b,
        ),
    decreases us.len(),
{
    if us.len() == 0 {
        assert(us.push(b).drop_first() =~= us);
    } else {
        assert(us.push(b).drop_first() =~= us.drop_first().push(b));
        lemma_rest_push(cfg, us.drop_first(), b);
    }
}

/// Output for one more identifier appends a separator (except before
/// the first) and that identifier's lines.
proof fn lemma_output_push(cfg: Config, us: Seq<Seq<u8>>, b: Seq<u8>)
    ensures
        output_spec(cfg, us.push(b)) =~= output_spec(cfg, us) + (if us.len() == 0 {
            Seq::<Seq<char>>::empty()
        } else {
            sep_spec(cfg)
        }) + item_lines_spec(cfg, b),
{
    if us.len() == 0 {
        assert(us.push(b)[0] == b);
        assert(us.push(b).drop_first() =~= Seq::<Seq<u8>>::empty());
    } else {
        assert(us.push(b)[0] == us[0]);
        assert(us.push(b).drop_first() =~= us.drop_first().push(b));
        lemma_rest_push(cfg, us.drop_first(), b);
    }
}

/// How many lines per identifier stand in `rest_spec`: the item's
/// lines plus its separator.
spec fn per_item_lines(cfg: Config) -> int {
    if cfg.quiet {
        1
    } else {
        3 + data_count(cfg.format)
    }
}

proof fn lemma_rest_len(cfg: Config, us: Seq<Seq<u8>>)
    ensures
        rest_spec(cfg, us).len() == us.len() * per_item_lines(cfg),
    decreases us.len(),
{
    if us.len() > 0 {
        lemma_rest_len(cfg, us.drop_first());
        lemma_block_len(cfg.uuid_type, cfg.format, us[0]);
        if cfg.quiet {
            assert(rest_spec(cfg, us).len() == us.len() * 1int) by (nonlinear_arith)
                requires
                    rest_spec(cfg, us).len() == 1 + (us.len() - 1) * 1int,
            ;
        } else if cfg.format == OutputFormat::All {
            assert(rest_spec(cfg, us).len() == us.len() * 7int) by (nonlinear_arith)
                requires
                    rest_spec(cfg, us).len() == 7 + (us.len() - 1) * 7int,
            ;
        } else {
            assert(rest_spec(cfg, us).len() == us.len() * 4int) by (nonlinear_arith)
                requires
                    rest_spec(cfg, us).len() == 4 + (us.len() - 1) * 4int,
            ;
        }
    }
}

/// How many lines a whole run prints for `n` identifiers: none for
/// none; one per identifier in quiet mode; a block per identifier and
/// a blank line between neighbouring blocks in verbose mode.
pub open spec fn total_lines(cfg: Config, n: int) -> int {
    if n == 0 {
        0
    } else if cfg.quiet {
        n
    } else {
        n * (2 + data_count(cfg.format)) + (n - 1)
    }
}

/// The number of output lines is a function of the configuration and
/// of the number of identifiers alone.
pub proof fn lemma_output_len(cfg: Config, us: Seq<Seq<u8>>)
    ensures
        output_spec(cfg, us).len() == total_lines(cfg, us.len() as int),
{
    if us.len() > 0 {
        lemma_rest_len(cfg, us.drop_first());
        lemma_block_len(cfg.uuid_type, cfg.format, us[0]);
        let n = us.len() as int;
        assert(us.drop_first().len() == n - 1);
        if !cfg.quiet {
            let d = data_count(cfg.format);
            assert(item_lines_spec(cfg, us[0]).len() == 2 + d);
            assert(rest_spec(cfg, us.drop_first()).len() == (n - 1) * (3 + d));
            assert(output_spec(cfg, us).len() == (2 + d) + (n - 1) * (3 + d));
            assert((n - 1) * (3 + d) == (n - 1) * (2 + d) + (n - 1)) by (nonlinear_arith);
            assert((2 + d) + (n - 1) * (2 + d) == n * (2 + d)) by (nonlinear_arith);
        } else {
            assert(rest_spec(cfg, us.drop_first()).len() == (n - 1) * 1int);
            assert(output_spec(cfg, us).len() == 1 + (n - 1) * 1int);
        }
    }
}

proof fn lemma_quiet_rest(cfg: Config, us: Seq<Seq<u8>>)
    requires
        cfg.quiet,
    ensures
        rest_spec(cfg, us).len() == us.len(),
        forall|i: int|
            0 <= i < us.len() ==> rest_spec(cfg, us)[i] == quiet_line_spec(cfg.format, us[i]),
    decreases us.len(),
{
    if us.len() > 0 {
        lemma_quiet_rest(cfg, us.drop_first());
        assert forall|i: int| 0 <= i < us.len() implies rest_spec(cfg, us)[i] == quiet_line_spec(
            cfg.format,
            us[i],
        ) by {
            if i > 0 {
                assert(rest_spec(cfg, us)[i] == rest_spec(cfg, us.drop_first())[i - 1]);
            }
        }
    }
}

/// Quiet output is one bare line per identifier, in order, with no
/// header and no blank line; when every encoding is selected, each
/// line is the canonical lowercase hyphenated rendering.
pub proof fn lemma_quiet_output(cfg: Config, us: Seq<Seq<u8>>)
    requires
        cfg.quiet,
    ensures
        output_spec(cfg, us).len() == us.len(),
        forall|i: int|
            0 <= i < us.len() ==> output_spec(cfg, us)[i] == quiet_line_spec(cfg.format, us[i]),
        cfg.format == OutputFormat::All ==> forall|i: int|
            0 <= i < us.len() ==> output_spec(cfg, us)[i] == crate::hexfmt::lower_dash_of(us[i]),
{
    if us.len() > 0 {
        lemma_quiet_rest(cfg, us.drop_first());
        assert forall|i: int| 0 <= i < us.len() implies output_spec(cfg, us)[i] == quiet_line_spec(
            cfg.format,
            us[i],
        ) by {
            if i > 0 {
                assert(output_spec(cfg, us)[i] == rest_spec(cfg, us.drop_first())[i - 1]);
            }
        }
    }
}

/// What a finished run guarantees of its lines: every identifier has
/// the layout its type prescribes, and the lines are exactly the
/// output for those identifiers.
pub open spec fn run_post(cfg: Config, lines: Seq<Seq<char>>, us: Seq<Seq<u8>>) -> bool {
    &&& forall|i: int| 0 <= i < us.len() ==> layout_ok(cfg.uuid_type, #[trigger] us[i])
    &&& lines == output_spec(cfg, us)
}

/// Generate `count` identifiers and assemble every line the
/// invocation prints, in generation order. The run fails only when
/// the wall clock, which time-ordered generation needs, cannot be
/// read; the lines gathered before the failure stand unchanged.
pub fn run(cfg: &Config) -> (r: (Vec<String>, Option<RunError>))
    ensures
        r.1 is None ==> exists|us: Seq<Seq<u8>>|
            #[trigger] run_post(*cfg, r.0.deep_view(), us) && us.len() == cfg.count,
        r.1 is Some ==> cfg.uuid_type == UuidType::V7 && exists|us: Seq<Seq<u8>>|
            #[trigger] run_post(*cfg, r.0.deep_view(), us) && us.len() < cfg.count,
        cfg.uuid_type == UuidType::V4 ==> r.1 is None,
        cfg.count == 0 ==> r.1 is None && r.0.len() == 0,
        r.1 is None ==> r.0.len() == total_lines(*cfg, cfg.count as int),
{
    let mut lines: Vec<String> = Vec::new();
    let ghost mut us: Seq<Seq<u8>> = Seq::empty();
    let mut i: usize = 0;
    while i < cfg.count
        invariant
            i <= cfg.count,
            us.len() == i,
            forall|j: int| 0 <= j < us.len() ==> layout_ok(cfg.uuid_type, #[trigger] us[j]),
            lines.deep_view() == output_spec(*cfg, us),
        decreases cfg.count - i,
    {
        match UuidValue::generate(cfg.uuid_type) {
            None => {
                let res = (lines, Some(RunError::ClockUnreadable));
                proof {
                    assert(run_post(*cfg, res.0.deep_view(), us));
                    assert(exists|w: Seq<Seq<u8>>|
                        #[trigger] run_post(*cfg, res.0.deep_view(), w) && w.len() < cfg.count);
                }
                return res;
            },
            Some(u) => {
                if i > 0 && !cfg.quiet {
                    lines.push(String::new());
                }
                if cfg.quiet {
                    lines.push(quiet_line(cfg.format, &u));
                } else {
                    let mut block = verbose_block(cfg.uuid_type, cfg.format, &u);
                    lines.append(&mut block);
                }
                proof {
                    lemma_output_push(*cfg, us, u@);
                    us = us.push(u@);
                    assert(lines.deep_view() =~= output_spec(*cfg, us));
                }
                i = i + 1;
            },
        }
    }
    let res = (lines, None);
    proof {
        lemma_output_len(*cfg, us);
        assert(run_post(*cfg, res.0.deep_view(), us));
        assert(exists|w: Seq<Seq<u8>>|
            #[trigger] run_post(*cfg, res.0.deep_view(), w) && w.len() == cfg.count);
    }
    res
}

} // verus!
