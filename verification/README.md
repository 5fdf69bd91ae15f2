# monad

An Intel VT-x hypervisor for the study of second-level address translation,
whose decisions are proved.

The library holds every rule of the hypervisor, each with its contract:

- `src/arch` - capabilities, controls, guest state, and the writes that set a
  control structure up;
- `src/ept` - physical inventory, memory types, table entries, base views, the
  scan that checks them, views with their edits, backings, and the manager that
  publishes views;
- `src/exit` - exit contexts, the dispatch of exits, injected events, fault
  policy, and the monitor's private call;
- `src/rendezvous` - mailboxes, and switches that are taken back when they fail;
- `src/telemetry` - event records and their ring;
- `src/vmm` - launch, activation and shutdown, as steps that each processor
  takes;
- `src/driver` - the controller's session, its requests, and their answers;
- `src/lifecycle.rs`, `src/topology.rs`, `src/memory.rs`, `src/logging.rs`.

Functions named `law_..` state what holds of several functions together: that a
change of views is all or nothing (`vmm/together.rs`), that a launch is
(`vmm/starting.rs`), that a processor which cannot be launched is left as it was
(`vmm/bringup.rs`), that processors run published views only
(`vmm/confined.rs`), that what was published never changes
(`ept/permanence.rs`), that a name is given once and stays dead when what it
named is gone (`ept/handles.rs`), that views share no table (`ept/apart.rs`),
that a draft walks as its source and a publication as its draft
(`ept/manager.rs`), that figures count what walks find (`ept/view.rs`), that a
split changes leaf sizes only (`ept/tree.rs`), that a view which passes the scan
maps every page to itself (`ept/scan.rs`), and that what is built passes
(`ept/passing.rs`).

`app/` is what carries the decisions out: the processor's instructions, the
services of the operating system, the loops on each processor, and the command
line.

Work that touches the machine is cut into steps. A function of the library says
what is to be done next, `app/` does it, and hands back what it came to. So the
order in which processors take their steps is free, and the laws hold for every
order.

Pages of tables and backings belong to the source that gave them. Whoever is
done with a view, a page store, a manager or a monitor releases it, and its
pages go back; the library does so wherever it gives one of these up.
