# movie_review

A movie review program, verified with Verus. Anyone may review a film, change a
review of their own, and comment on a review; a review earns ten tokens of the
program's own mint and a comment earns five.

The library in `src/` takes every decision. It never touches the host: a request
is worked through one step at a time, each step either its result or something to
ask of the host (`step::Action`), and the answer (`step::Event`) leads to the next
step.

- `codec`, `state`, `instruction`: the Borsh form of values, records and requests.
- `pubkey`, `invoke`: derived addresses, and instructions to other programs.
- `step`, `model`: the steps, and what each of them is, as spec functions.
- `processor`: the program, verified against the model.
- `laws`: what holds of the program as a whole.

`app/` runs the steps on the host: it asks for the rent, invokes other programs,
reads and writes account data, and logs. `tests/` runs the library on concrete values.

Where an address cannot be derived, or the counter of comments is full, a request
cannot go on. `processor::resume` and its like leave these cases out by their
`requires`; `try_resume`, `try_dispatch` and `try_process_instruction` answer them
with `None`.
