use crate::commands::{done, LllCommand, LllRunnable, Outcome, OutcomeView, Outside, OutsideView};
use crate::context::{carried_out, io_view, ContextView, LllContext};
use crate::error::{IoError, IoErrorView, LllError};
use crate::fs::disk::Disk;
use crate::history::DiskView;
use crate::tab::refreshed;
use crate::text::{i32_to_string, signed_decimal};
use vstd::prelude::*;
use vstd::string::StringExecFns;

verus! {

/// The session after the tab at `new_index` has become the current one.
/// `chdir` is what making the directory of that tab the working directory
/// of the process gave.
pub open spec fn switched_tab(
    session: ContextView,
    new_index: usize,
    chdir: Result<(), IoErrorView>,
    disk: DiskView,
) -> Result<ContextView, IoErrorView> {
    match chdir {
        Err(e) => Err(e),
        Ok(()) => match refreshed(session.tabs[new_index as int], disk, session.config_t.sort_option) {
            Err(e) => Err(e),
            Ok(tab) => Ok(
                ContextView {
                    curr_tab_index: new_index,
                    tabs: session.tabs.update(new_index as int, tab),
                    ..session
                },
            ),
        },
    }
}

/// The tab index reached from `index` by a signed `movement`, among `count`
/// tabs, wrapping past either end.
pub open spec fn wrapped_index(index: int, movement: int, count: int) -> int {
    (index + movement) % count
}

/// The tab index wraps in both directions: it stays among the tabs, one
/// step back from the first tab leads to the last, one step on from the
/// last leads to the first, and a full round leads back.
pub proof fn lemma_wrapped_index(index: int, movement: int, count: int)
    requires
        0 < count,
        0 <= index < count,
    ensures
        0 <= wrapped_index(index, movement, count) < count,
        wrapped_index(0, -1, count) == count - 1,
        wrapped_index(count - 1, 1, count) == 0,
        wrapped_index(index, 0, count) == index,
        wrapped_index(index, movement + count, count) == wrapped_index(index, movement, count),
        wrapped_index(index, movement - count, count) == wrapped_index(index, movement, count),
{
    vstd::arithmetic::div_mod::lemma_mod_bound(index + movement, count);
    vstd::arithmetic::div_mod::lemma_small_mod(index as nat, count as nat);
    vstd::arithmetic::div_mod::lemma_small_mod((count - 1) as nat, count as nat);
    vstd::arithmetic::div_mod::lemma_mod_add_multiples_vanish(-1, count);
    vstd::arithmetic::div_mod::lemma_mod_self_0(count);
    vstd::arithmetic::div_mod::lemma_mod_add_multiples_vanish(index + movement, count);
    vstd::arithmetic::div_mod::lemma_mod_sub_multiples_vanish(index + movement, count);
    assert(count + (index + movement) == index + (movement + count));
    assert(-count + (index + movement) == index + (movement - count));
}

/// Moves the current-tab pointer by a signed number of tabs.
#[derive(Clone, Copy, Debug, PartialEq, Eq)]
pub struct TabSwitch {
    movement: i32,
}

impl TabSwitch {
    /// By how many tabs the command moves; backward where it is negative.
    pub closed spec fn movement(&self) -> int {
        self.movement as int
    }

    /// The command with its movement.
    pub fn new(movement: i32) -> (r: Self)
        ensures
            r.movement() == movement,
    {
        TabSwitch { movement }
    }

    /// The name of the command in a keymap.
    pub fn command() -> (r: &'static str)
        ensures
            r@ == "tab_switch"@,
    {
        "tab_switch"
    }

    /// Makes the tab at `new_index` the current one, once the process has
    /// been asked to make the directory of that tab its working directory
    /// and `chdir` has come back. A listing that was marked as out of date
    /// is read again before it is shown. On any failure the session stays
    /// as it was.
    pub fn tab_switch(
        new_index: usize,
        context: &mut LllContext,
        chdir: Result<(), IoError>,
        disk: &Disk,
    ) -> (r: Result<(), IoError>)
        requires
            old(context).wf(),
            new_index < old(context)@.tabs.len(),
            disk.wf(),
        ensures
            final(context).wf(),
            carried_out(
                old(context)@,
                final(context)@,
                io_view(r),
                switched_tab(old(context)@, new_index, io_view(chdir), disk@),
            ),
    {
        match chdir {
            Err(e) => {
                return Err(e);
            },
            Ok(()) => {},
        }
        let sort_option = context.config().sort_option;
        let tab = context.tab_mut(new_index);
        match tab.refresh_if_stale(disk, &sort_option) {
            Ok(()) => {},
            Err(e) => {
                proof {
                    let session = old(context)@;
                    assert(session.tabs.update(new_index as int, session.tabs[new_index as int])
                        =~= session.tabs);
                }
                return Err(e);
            },
        }
        context.set_curr_tab_index(new_index);
        proof {
            let session = old(context)@;
            assert(session.tabs.update(new_index as int, session.tabs[new_index as int])
                =~= session.tabs);
        }
        Ok(())
    }

    /// The index of the tab that this command selects when the tab at
    /// `curr_index` of `tab_count` tabs is current.
    pub fn target_index(&self, curr_index: usize, tab_count: usize) -> (r: usize)
        requires
            0 < tab_count,
            curr_index < tab_count,
        ensures
            r == wrapped_index(curr_index as int, self.movement(), tab_count as int),
            r < tab_count,
    {
        let count: u128 = tab_count as u128;
        let curr: u128 = curr_index as u128;
        if self.movement >= 0 {
            let step: u128 = (self.movement as u128) % count;
            proof {
                vstd::arithmetic::div_mod::lemma_add_mod_noop_right(
                    curr as int,
                    self.movement as int,
                    count as int,
                );
            }
            ((curr + step) % count) as usize
        } else {
            let back: u128 = ((-(self.movement as i128)) as u128) % count;
            proof {
                vstd::arithmetic::div_mod::lemma_sub_mod_noop_right(
                    curr as int,
                    -(self.movement as int),
                    count as int,
                );
                vstd::arithmetic::div_mod::lemma_mod_add_multiples_vanish(
                    curr as int - back as int,
                    count as int,
                );
            }
            ((curr + count - back) % count) as usize
        }
    }
}

impl LllCommand for TabSwitch {
    /// The name of the command and its movement.
    open spec fn label(&self) -> Seq<char> {
        "tab_switch"@ + seq![' '] + signed_decimal(self.movement())
    }

    fn to_string(&self) -> (r: String) {
        proof {
            reveal_strlit(" ");
        }
        let r = String::from_str("tab_switch").concat(" ").concat(
            i32_to_string(self.movement).as_str(),
        );
        assert(r@ =~= "tab_switch"@ + seq![' '] + signed_decimal(self.movement()));
        r
    }
}

impl LllRunnable for TabSwitch {
    /// The current-tab pointer moves by the movement of the command,
    /// wrapping past either end, and that tab is shown.
    open spec fn executed(&self, session: ContextView, outside: OutsideView) -> Result<
        (ContextView, OutcomeView),
        IoErrorView,
    > {
        done(
            switched_tab(
                session,
                wrapped_index(
                    session.curr_tab_index as int,
                    self.movement(),
                    session.tabs.len() as int,
                ) as usize,
                outside.chdir,
                outside.disk,
            ),
        )
    }

    fn execute(&self, context: &mut LllContext, outside: Outside) -> (r: Result<Outcome, LllError>) {
        let new_index = self.target_index(context.curr_tab_index(), context.tab_count());
        match Self::tab_switch(new_index, context, outside.chdir, outside.disk) {
            Ok(()) => Ok(Outcome::Done),
            Err(e) => Err(LllError::IO(e)),
        }
    }
}

} // verus!
