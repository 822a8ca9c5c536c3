# ab_tui

The dashboard of agent-bridge: it shows a pool of workers that run in tmux panes and the tasks
that were delegated to them, and lets a person focus a pane, read a task, cancel it, look at the
end of a worker's output, or evict a worker.

`src/` is the library, written in Verus: every decision the dashboard makes is a function with a
contract that is proved. `app/` is the program around it: the terminal, the keyboard, tmux, the
data directory and the background threads. `tests/` runs the library on concrete values.

| module | what it holds |
| --- | --- |
| `text`, `textmap`, `stamp` | strings as sequences of characters, maps keyed by text, UTC stamps |
| `registry`, `lineage` | workers, tasks, which task belongs to whom, who spawned whom |
| `live`, `blocker` | what tmux says about panes, and how old that is; prompts and their debounce |
| `model`, `triage`, `rows` | a reading of the disk, the order of its groups, the rows of the lists |
| `app`, `selection` | the state behind the screen, what each key does, and what always holds of it |
| `action` | pages, evidence, and the steps of focusing, copying and evicting |
| `theme`, `paint`, `screen`, `view` | colours, highlighting, layout, and every line on the screen |
| `session` | the loop: what messages, keys and ticks do |
| `cli` | the command line |

Laws that span several functions are public proof functions next to what they speak of; those on
the keys and the selection are in `selection`, those on the order of the groups in `triage`.

What is trusted are six items: `String::push`, `str::to_lowercase`, `String::from_utf8_lossy`,
the two splits of ratatui's `Layout`, and the width of a ratatui `Line`. Three of them name their
result: `lowercase`, `lossy` and `width_of`. Each says in its doc comment what it claims.
