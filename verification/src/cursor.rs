//! The mode cursor: deterministic advancing through the configured modes.

use vstd::prelude::*;
use crate::config::{first_index, lemma_first_index_at, lemma_first_index_hits, ConfigModel,
    PromptsConfig};
use crate::error::PipelineError;

verus! {

/// The cursor position of `current` in `m`: the position of the mode of
/// that name, or position 0 when the mode is not configured (for instance
/// because it was removed by a reload).
pub open spec fn cursor_position(m: ConfigModel, current: Seq<char>) -> int {
    if m.contains_mode(current) {
        first_index(m.modes, current)
    } else {
        0
    }
}

/// The name the cursor moves to from `current`: the one after `current`'s
/// position, wrapping around past the last mode.
pub open spec fn next_mode_spec(m: ConfigModel, current: Seq<char>) -> Seq<char>
    recommends
        m.modes.len() > 0,
{
    let pos = cursor_position(m, current);
    let next = if pos + 1 < m.modes.len() {
        pos + 1
    } else {
        0
    };
    m.modes[next].0
}

/// Advance the cursor: the name at the position after `current`'s, in
/// configuration order, wrapping around; `current`'s position is 0 when it
/// is not configured. Fails only when the mode set is empty.
pub fn next_mode(config: &PromptsConfig, current: &String) -> (r: Result<String, PipelineError>)
    ensures
        config@.modes.len() == 0
            <==> r == Err::<String, PipelineError>(PipelineError::NoModesConfigured),
        config@.modes.len() > 0
            ==> (r matches Ok(m) && m@ == next_mode_spec(config@, current@)),
{
    if config.modes.len() == 0 {
        return Err(PipelineError::NoModesConfigured);
    }
    let pos: usize = match config.find_mode(current) {
        Some(i) => i,
        None => 0,
    };
    proof {
        if config@.contains_mode(current@) {
            lemma_first_index_hits(config@.modes, current@);
        }
    }
    let next: usize = if pos + 1 < config.modes.len() {
        pos + 1
    } else {
        0
    };
    Ok(config.modes[next].0.clone())
}

/// The cursor position after `n` advances from `start`.
pub open spec fn advance_times(m: ConfigModel, start: Seq<char>, n: nat) -> Seq<char>
    decreases n,
{
    if n == 0 {
        start
    } else {
        next_mode_spec(m, advance_times(m, start, (n - 1) as nat))
    }
}

/// Where the cursor stands after `j` single steps from position `k0`,
/// written without modular arithmetic: `j` positions further, wrapped once.
pub open spec fn rotated(k0: int, j: int, len: int) -> int {
    if k0 + j < len {
        k0 + j
    } else {
        k0 + j - len
    }
}

/// From the mode at position `k`, advancing moves to the mode at the next
/// position, wrapping around.
proof fn lemma_next_from_position(m: ConfigModel, k: int)
    requires
        m.wf(),
        0 <= k < m.modes.len(),
    ensures
        next_mode_spec(m, m.modes[k].0) == m.modes[if k + 1 < m.modes.len() {
            k + 1
        } else {
            0
        }].0,
{
    assert(m.contains_mode(m.modes[k].0));
    lemma_first_index_at(m.modes, m.modes[k].0, k);
}

/// Closed form of the cursor's orbit: after `j` advances from the mode at
/// position `k0`, the cursor stands on the mode at `rotated(k0, j, len)`.
proof fn lemma_advance_closed(m: ConfigModel, k0: int, j: nat)
    requires
        m.wf(),
        0 < m.modes.len(),
        0 <= k0 < m.modes.len(),
        j <= m.modes.len(),
    ensures
        advance_times(m, m.modes[k0].0, j) == m.modes[rotated(k0, j as int, m.modes.len() as int)].0,
    decreases j,
{
    let len = m.modes.len() as int;
    if j == 0 {
    } else {
        lemma_advance_closed(m, k0, (j - 1) as nat);
        let p = rotated(k0, j - 1, len);
        lemma_next_from_position(m, p);
        assert(rotated(k0, j as int, len) == if p + 1 < len {
            p + 1
        } else {
            0
        });
    }
}

/// Cycling visits every configured mode exactly once before repeating:
/// starting from any configured mode of a well-formed, non-empty config,
/// the first `N` advances (with `N` the mode count) are pairwise distinct,
/// reach every configured mode, and the `N`-th returns to the start.
pub proof fn lemma_cycle_visits_every_mode(m: ConfigModel, start: Seq<char>)
    requires
        m.wf(),
        m.modes.len() > 0,
        m.contains_mode(start),
    ensures
        advance_times(m, start, m.modes.len() as nat) == start,
        forall|a: int, b: int|
            1 <= a < b <= m.modes.len()
                ==> #[trigger] advance_times(m, start, a as nat)
                    != #[trigger] advance_times(m, start, b as nat),
        forall|k: int|
            0 <= k < m.modes.len()
                ==> exists|j: int|
                    1 <= j <= m.modes.len()
                        && #[trigger] advance_times(m, start, j as nat)
                            == (#[trigger] m.modes[k]).0,
{
    let len = m.modes.len() as int;
    lemma_first_index_hits(m.modes, start);
    let k0 = first_index(m.modes, start);
    assert(m.modes[k0].0 == start);
    assert forall|j: int| 0 <= j <= len implies #[trigger] advance_times(m, start, j as nat)
        == m.modes[rotated(k0, j, len)].0 by {
        lemma_advance_closed(m, k0, j as nat);
    }
    assert(rotated(k0, len, len) == k0);
    assert forall|a: int, b: int|
        1 <= a < b <= len implies #[trigger] advance_times(m, start, a as nat)
        != #[trigger] advance_times(m, start, b as nat) by {
        let ra = rotated(k0, a, len);
        let rb = rotated(k0, b, len);
        assert(ra != rb);
        assert(0 <= ra < len && 0 <= rb < len);
        if ra < rb {
            assert(m.modes[ra].0 != m.modes[rb].0);
        } else {
            assert(m.modes[rb].0 != m.modes[ra].0);
        }
    }
    assert forall|k: int| 0 <= k < len implies exists|j: int|
        1 <= j <= len && #[trigger] advance_times(m, start, j as nat)
            == (#[trigger] m.modes[k]).0 by {
        let j = if k > k0 {
            k - k0
        } else {
            k - k0 + len
        };
        assert(rotated(k0, j, len) == k);
        assert(advance_times(m, start, j as nat) == m.modes[k].0);
    }
}

/// A current mode that was removed from the config falls back to position
/// 0: advancing then yields the mode after the first one (or the first one
/// itself when it is the only mode), and does not fail.
pub proof fn lemma_removed_mode_falls_back(m: ConfigModel, current: Seq<char>)
    requires
        m.modes.len() > 0,
        !m.contains_mode(current),
    ensures
        cursor_position(m, current) == 0,
        next_mode_spec(m, current) == m.modes[if m.modes.len() > 1 {
            1int
        } else {
            0int
        }].0,
{
}

} // verus!
