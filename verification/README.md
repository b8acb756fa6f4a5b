# calnexus

A calculation engine whose integer, text and tree logic is written in Verus
and proved against its contracts.

- `src/` — the verified library: exact integers and fractions (with
  `num-bigint` / `num-rational` behind trusted wrappers), number theory
  (gcd/lcm, modular powers and inverses, the Chinese remainder theorem,
  Miller–Rabin, Euler's totient, the sieve, discrete logarithms),
  combinatorics, exact decimal formatting, the unit table and conversion
  plans, exchange-rate tables, calendar rules, date parsing, zoned date-time
  reading and formatting (with `jiff` and `regex` behind trusted wrappers),
  the time domain's calls (argument checks, weekday and ordinal day, and
  which work each call needs from its caller), the message catalogue (with
  `fluent-bundle`), the function catalogue, domain routing predicates on
  expression trees, symbolic differentiation, integration and printing,
  LaTeX rendering and edit distance.
- `tests/` — executable tests of the library.
- `app/` — the program and everything that computes in floating point or
  with time zones: scalar, complex, matrix, vector, polynomial, statistical,
  numerical routines, symbolic simplification, limits and series, unit and
  currency conversion arithmetic,
  the time domain's driver (argument evaluation, spans, time-zone rules, the
  clock) and the step-by-step display.

Binary64 values cross into the library as their bit patterns; where the
library renders one in decimal it takes the text from the caller.
