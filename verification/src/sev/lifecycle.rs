//! What the life cycle of a GHCB does to its page.

use vstd::prelude::*;

use crate::sev::ghcb;
use crate::sev::platform;
use crate::sev::platform::{PlatformCall, Progress};
use crate::types::{PhysAddr, VirtAddr};

verus! {

/// The state of the page at one virtual and one physical address, as far as
/// sharing it with the hypervisor goes.
pub struct PageStatus {
    /// The guest has validated the page.
    pub validated: bool,
    /// The page belongs to the guest, and not to the hypervisor.
    pub guest_owned: bool,
    /// The page is mapped encrypted.
    pub encrypted: bool,
    /// Where the hypervisor takes the GHCB to be; 0 for nowhere.
    pub registered: PhysAddr,
}

impl PageStatus {
    /// Only the guest can use the page.
    pub open spec fn is_private(self) -> bool {
        self.validated && self.guest_owned && self.encrypted
    }

    /// The guest does not count on a page that the hypervisor can reach: one
    /// that it has validated belongs to it and is mapped encrypted.
    pub open spec fn is_safe(self) -> bool {
        self.validated ==> self.guest_owned && self.encrypted
    }

    /// After a call that has succeeded, on the page at `vaddr` and `paddr`.
    pub open spec fn after(
        self,
        vaddr: VirtAddr,
        paddr: PhysAddr,
        call: PlatformCall,
    ) -> PageStatus {
        match call {
            PlatformCall::Pvalidate { vaddr: v, huge_page, valid } => {
                if v == vaddr && !huge_page {
                    PageStatus { validated: valid, ..self }
                } else {
                    self
                }
            },
            PlatformCall::InvalidatePage { paddr: p } => {
                if p == paddr {
                    PageStatus { guest_owned: false, ..self }
                } else {
                    self
                }
            },
            PlatformCall::ValidatePage { paddr: p } => {
                if p == paddr {
                    PageStatus { guest_owned: true, ..self }
                } else {
                    self
                }
            },
            PlatformCall::RegisterGhcb { paddr: p } => PageStatus { registered: p, ..self },
            PlatformCall::MapPageShared { vaddr: v } => {
                if v == vaddr {
                    PageStatus { encrypted: false, ..self }
                } else {
                    self
                }
            },
            PlatformCall::MapPageEncrypted { vaddr: v } => {
                if v == vaddr {
                    PageStatus { encrypted: true, ..self }
                } else {
                    self
                }
            },
            _ => self,
        }
    }

    /// After calls that have all succeeded, one by one.
    pub open spec fn after_all(
        self,
        vaddr: VirtAddr,
        paddr: PhysAddr,
        calls: Seq<PlatformCall>,
    ) -> PageStatus
        decreases calls.len(),
    {
        if calls.len() == 0 {
            self
        } else {
            self.after_all(vaddr, paddr, calls.drop_last()).after(vaddr, paddr, calls.last())
        }
    }
}

/// The state of the page after `k` calls comes from that after `k - 1`.
proof fn lemma_after_next(
    before: PageStatus,
    vaddr: VirtAddr,
    paddr: PhysAddr,
    calls: Seq<PlatformCall>,
    k: int,
)
    requires
        0 < k <= calls.len(),
    ensures
        before.after_all(vaddr, paddr, calls.take(0)) == before,
        before.after_all(vaddr, paddr, calls.take(k)) == before.after_all(
            vaddr,
            paddr,
            calls.take(k - 1),
        ).after(vaddr, paddr, calls[k - 1]),
{
    assert(calls.take(k).drop_last() =~= calls.take(k - 1));
}

proof fn lemma_after_init(before: PageStatus, vaddr: VirtAddr, paddr: PhysAddr)
    ensures
        before.after_all(vaddr, paddr, ghcb::init_calls(vaddr, paddr)) == (PageStatus {
            validated: false,
            guest_owned: false,
            encrypted: false,
            registered: paddr,
        }),
{
    let calls = ghcb::init_calls(vaddr, paddr);
    lemma_after_next(before, vaddr, paddr, calls, 1);
    lemma_after_next(before, vaddr, paddr, calls, 2);
    lemma_after_next(before, vaddr, paddr, calls, 3);
    lemma_after_next(before, vaddr, paddr, calls, 4);
    lemma_after_next(before, vaddr, paddr, calls, 5);
    assert(calls.take(5) =~= calls);
}

proof fn lemma_after_shutdown(before: PageStatus, vaddr: VirtAddr, paddr: PhysAddr)
    ensures
        before.after_all(vaddr, paddr, ghcb::shutdown_calls(vaddr, paddr)) == (PageStatus {
            validated: true,
            guest_owned: true,
            encrypted: true,
            registered: 0,
        }),
{
    let calls = ghcb::shutdown_calls(vaddr, paddr);
    lemma_after_next(before, vaddr, paddr, calls, 1);
    lemma_after_next(before, vaddr, paddr, calls, 2);
    lemma_after_next(before, vaddr, paddr, calls, 3);
    lemma_after_next(before, vaddr, paddr, calls, 4);
    assert(calls.take(4) =~= calls);
}

/// However far `GHCB::init` comes with a private page, and `GHCB::shutdown`
/// with one that the guest has not validated, the guest never counts on a page
/// that the hypervisor can reach.
pub proof fn law_page_is_safe_throughout(
    before: PageStatus,
    vaddr: VirtAddr,
    paddr: PhysAddr,
    k: int,
)
    ensures
        before.is_private() && 0 <= k <= ghcb::init_calls(vaddr, paddr).len() ==> before.after_all(
            vaddr,
            paddr,
            ghcb::init_calls(vaddr, paddr).take(k),
        ).is_safe(),
        !before.validated && 0 <= k <= ghcb::shutdown_calls(vaddr, paddr).len()
            ==> before.after_all(
            vaddr,
            paddr,
            ghcb::shutdown_calls(vaddr, paddr).take(k),
        ).is_safe(),
{
    let init = ghcb::init_calls(vaddr, paddr);
    let shutdown = ghcb::shutdown_calls(vaddr, paddr);
    lemma_after_next(before, vaddr, paddr, init, 1);
    lemma_after_next(before, vaddr, paddr, init, 2);
    lemma_after_next(before, vaddr, paddr, init, 3);
    lemma_after_next(before, vaddr, paddr, init, 4);
    lemma_after_next(before, vaddr, paddr, init, 5);
    lemma_after_next(before, vaddr, paddr, shutdown, 1);
    lemma_after_next(before, vaddr, paddr, shutdown, 2);
    lemma_after_next(before, vaddr, paddr, shutdown, 3);
    lemma_after_next(before, vaddr, paddr, shutdown, 4);
}

/// Once the calls of `GHCB::init` have succeeded the page is shared with the
/// hypervisor, which knows where it is.
pub proof fn law_init_shares_the_page(before: PageStatus, vaddr: VirtAddr, paddr: PhysAddr)
    ensures
        ({
            let after = before.after_all(vaddr, paddr, ghcb::init_calls(vaddr, paddr));
            &&& !after.validated
            &&& !after.guest_owned
            &&& !after.encrypted
            &&& after.registered == paddr
        }),
{
    lemma_after_init(before, vaddr, paddr);
}

/// `GHCB::shutdown` undoes `GHCB::init`: a page that was private and not
/// registered is again as it was.
pub proof fn law_shutdown_undoes_init(before: PageStatus, vaddr: VirtAddr, paddr: PhysAddr)
    requires
        before.is_private(),
        before.registered == 0,
    ensures
        before.after_all(vaddr, paddr, ghcb::init_calls(vaddr, paddr)).after_all(
            vaddr,
            paddr,
            ghcb::shutdown_calls(vaddr, paddr),
        ) == before,
{
    lemma_after_init(before, vaddr, paddr);
    lemma_after_shutdown(
        before.after_all(vaddr, paddr, ghcb::init_calls(vaddr, paddr)),
        vaddr,
        paddr,
    );
}

/// `GHCB::init` succeeds if and only if each of its first four calls does; the
/// last, which flushes the translation buffers, cannot fail.
pub proof fn law_init_succeeds_if_all_calls_do(
    vaddr: VirtAddr,
    paddr: PhysAddr,
    outcomes: Seq<Result<(), ()>>,
)
    requires
        outcomes.len() == ghcb::init_calls(vaddr, paddr).len(),
    ensures
        Progress::start(ghcb::init_calls(vaddr, paddr)).after_all(outcomes) == Progress::Finished(
            if outcomes[0] is Ok && outcomes[1] is Ok && outcomes[2] is Ok && outcomes[3] is Ok {
                Ok::<(), ()>(())
            } else {
                Err(())
            },
        ),
{
    let calls = ghcb::init_calls(vaddr, paddr);
    platform::law_sequence_succeeds_unless_a_call_fails(calls, outcomes);
}

/// `GHCB::shutdown` succeeds if and only if each of its calls does.
pub proof fn law_shutdown_succeeds_if_all_calls_do(
    vaddr: VirtAddr,
    paddr: PhysAddr,
    outcomes: Seq<Result<(), ()>>,
)
    requires
        outcomes.len() == ghcb::shutdown_calls(vaddr, paddr).len(),
    ensures
        Progress::start(ghcb::shutdown_calls(vaddr, paddr)).after_all(outcomes)
            == Progress::Finished(
            if outcomes[0] is Ok && outcomes[1] is Ok && outcomes[2] is Ok && outcomes[3] is Ok {
                Ok::<(), ()>(())
            } else {
                Err(())
            },
        ),
{
    let calls = ghcb::shutdown_calls(vaddr, paddr);
    platform::law_sequence_succeeds_unless_a_call_fails(calls, outcomes);
}

/// `GHCB::init` invalidates the page before it hands it back, hands it back
/// before it registers it, registers it before it maps it shared, and flushes
/// the TLB last of all, so that no stale entry stays in use. There is no other
/// call, and each is about the one 4K page at `vaddr` and `paddr`.
pub proof fn law_init_call_by_call(vaddr: VirtAddr, paddr: PhysAddr, i: int)
    ensures
        ghcb::init_calls(vaddr, paddr).len() == 5,
        0 <= i < 5 ==> {
            let call = ghcb::init_calls(vaddr, paddr)[i];
            &&& call is Pvalidate <==> i == 0
            &&& call is InvalidatePage <==> i == 1
            &&& call is RegisterGhcb <==> i == 2
            &&& call is MapPageShared <==> i == 3
            &&& call is FlushTlbGlobal <==> i == 4
            &&& call matches PlatformCall::Pvalidate { vaddr: v, huge_page, valid } ==> v == vaddr
                && !huge_page && !valid
            &&& call matches PlatformCall::InvalidatePage { paddr: p } ==> p == paddr
            &&& call matches PlatformCall::RegisterGhcb { paddr: p } ==> p == paddr
            &&& call matches PlatformCall::MapPageShared { vaddr: v } ==> v == vaddr
        },
{
}

/// `GHCB::shutdown` maps the page encrypted before it unregisters it,
/// unregisters it before the hypervisor hands it over, and validates it last of
/// all. There is no other call, and each is about the one 4K page at `vaddr` and
/// `paddr`.
pub proof fn law_shutdown_call_by_call(vaddr: VirtAddr, paddr: PhysAddr, i: int)
    ensures
        ghcb::shutdown_calls(vaddr, paddr).len() == 4,
        0 <= i < 4 ==> {
            let call = ghcb::shutdown_calls(vaddr, paddr)[i];
            &&& call is MapPageEncrypted <==> i == 0
            &&& call is RegisterGhcb <==> i == 1
            &&& call is ValidatePage <==> i == 2
            &&& call is Pvalidate <==> i == 3
            &&& call matches PlatformCall::MapPageEncrypted { vaddr: v } ==> v == vaddr
            &&& call matches PlatformCall::RegisterGhcb { paddr: p } ==> p == 0
            &&& call matches PlatformCall::ValidatePage { paddr: p } ==> p == paddr
            &&& call matches PlatformCall::Pvalidate { vaddr: v, huge_page, valid } ==> v == vaddr
                && !huge_page && valid
        },
{
}

/// A request is handed over in two calls: the GHCB register is given the
/// address of the GHCB, and the guest is left.
pub proof fn law_exit_call_by_call(paddr: PhysAddr)
    ensures
        ghcb::exit_calls(paddr).len() == 2,
        ghcb::exit_calls(paddr)[0] matches PlatformCall::WriteGhcbMsr { value } && value == paddr,
        ghcb::exit_calls(paddr)[1] is VmgExit,
{
}

/// Whenever the life cycle of a GHCB maps its page shared it flushes the
/// translation buffers afterwards, and whatever it validates or invalidates is
/// a 4K page and not a huge one.
pub proof fn law_sharing_is_followed_by_a_flush(vaddr: VirtAddr, paddr: PhysAddr, i: int)
    ensures
        0 <= i < ghcb::init_calls(vaddr, paddr).len() && ghcb::init_calls(vaddr, paddr)[i]
            is MapPageShared ==> exists|j: int|
            i < j < ghcb::init_calls(vaddr, paddr).len() && #[trigger] ghcb::init_calls(
                vaddr,
                paddr,
            )[j] is FlushTlbGlobal,
        0 <= i < ghcb::init_calls(vaddr, paddr).len() ==> (ghcb::init_calls(vaddr, paddr)[i] matches
            PlatformCall::Pvalidate { huge_page, .. } ==> !huge_page),
        0 <= i < ghcb::shutdown_calls(vaddr, paddr).len() ==> (ghcb::shutdown_calls(
            vaddr,
            paddr,
        )[i] matches PlatformCall::Pvalidate { huge_page, .. } ==> !huge_page),
{
    assert(ghcb::init_calls(vaddr, paddr)[4] is FlushTlbGlobal);
}

} // verus!
