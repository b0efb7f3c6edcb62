# Kalvita

A small array-first, expression-driven scripting language: lexer, parser and
runtime, written in Verus.

```kal
[SCRIPTTYPE KALVITA VERSION 1]
kal.OnStart {
    var local names array = ["nova", "kael", "lyra"]
    for (name in var.names) {
        con.Print("hi ${var.name}!")
    }
}
```

## How it works

The library in `src/` is a machine. `Parser::parse` turns a text into a program,
`run_source` or `Repl::run_chunk` set up its run, and `Machine::run_steps` runs it
until it has ended or waits for its host. Floating-point arithmetic, files,
databases, windows and the like are the host's work: the machine says what it
wants (`Plan`, `Request`) and goes on with the answer (`Machine::answer`). Numbers
are the bits of IEEE 754 binary64 numbers.

## Layout

- `lexer`, `numeral`, `scanner`, `grammar`, `parser`, `complaints`: from text to
  program, and what is said of a text that is none. The lexer makes tokens of the
  text, with those of the small core syntax among them; the scanner says what a token
  is to the parser.
- `ast`, `table`, `text`, `number`, `show`, `operators`: values and what can be done
  with them.
- `builtins`, `strlib`, `arrlib`, `syslib`, `strings`, `glob`, `clock`, `sort`, `json`, `document`:
  the standard library.
- `runtime`, `gui`, `render`: modules, widgets, and what is to be seen of them.
- `state`, `semantics`, `windows`, `imports`, `steps`: what a script means, step by
  step. `machine`, `execute`, `targets`, `driver`: the machine that does it.
- `laws`, `meaning`, `calling`, `flows`, `writing`, `depth`, `soundness`, `algebra`,
  `precedence`: what holds of all of it.
- `app/`: the command line and the host.
