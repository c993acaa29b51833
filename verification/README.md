# calculator

Tokens, an expression builder, token factories for two calculator modes, and
calculator settings, verified with Verus.

- `src/lexical.rs`: the floating-point literal grammar of the standard library, a
  recogniser proved against it, character classes, and splitting at white space.
- `src/token.rs`: tokens and numbers, and reading one token from its text.
- `src/builder.rs`: a builder that tracks open parentheses and only finishes
  expressions with balanced parentheses and no two operators in a row.
- `src/factory.rs`: the standard and scientific token factories, their products,
  and a calculator generic over the factory that reads whitespace-separated input.
- `src/config.rs`: calculator settings and a pool that shares one configuration.
- `app/main.rs`: the program, and the floating-point side of numbers (their values
  and their formatting), which the library does not hold.

A number is carried as its literal text and notation; its value is the value of
that literal.
