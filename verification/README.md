# ledger

A double-entry accounting workspace with a terminal user interface. The
library (`src/`) holds the logic, verified with Verus:

- `types`: workspaces, commodities, companies, ledgers and journal entries,
  their keys, and the checks user input goes through;
- `util`, `text`, `datetime`: names and lists, decimal text, calendar days and
  accounting periods, instants in UTC;
- `edit_buffer`, `term_buffer`: editable text over a rope;
- `event`, `ansi`, `term_elements`, `term_layers`, `term`: terminal events,
  escape sequences, the widgets and the page that creates a workspace;
- `db_files`, `aggregates`: where the store puts each value, the commit
  messages of transactions, and counts over the journal.

`app/` is the program around it: command line, logging, the terminal and its
event loop, the git store and the channels between parts of the program.
