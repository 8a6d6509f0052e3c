# zero_shell

The core of a small Unix-like shell whose commands (`echo`, `cd`, `pwd`,
`ls`, `cat`, `cp`, `mv`, `rm`, `mkdir`, `exit`) are built in, verified with
Verus.

- `src/` is the verified library: the command-line tokenizer (`parser`), the
  read-evaluate loop's decisions and the prompt (`shell`), the choice of a
  command by name and every decision and message of each command
  (`commands`), including `ls`'s option reading, entry selection, sorting and
  short and long formats (`commands::ls`), plus the text and number handling
  they rest on (`text`, `numbers`, `messages`, `constants`).
- `app/` is the program around it: the terminal loop, signals, and the file
  system calls whose outcomes it hands to the library.
- `tests/` runs the library on concrete inputs.
